use crate::socket::rtt::RTTE_MAX_RTO;
use crate::time::{Duration, Instant};
use vstd::prelude::*;

verus! {

/// How long a socket lingers before it closes, in milliseconds.
pub const CLOSE_DELAY: u64 = 10_000;

/// When a socket wants to be polled next.
#[derive(Debug, Clone, Copy, PartialEq, Eq, Structural)]
pub enum PollAt {
    /// At once.
    Now,
    /// At the given time.
    Time(Instant),
    /// When a packet comes in.
    Ingress,
}

/// The timer of a socket. It runs for one purpose at a time.
#[derive(Debug, Clone, Copy, PartialEq, Eq, Structural)]
pub enum Timer {
    Idle { keep_alive_at: Option<Instant> },
    Retransmit { expires_at: Instant },
    FastRetransmit,
    ZeroWindowProbe { expires_at: Instant, delay: Duration },
    Close { expires_at: Instant },
}

/// `at` moved on by `delay`.
pub open spec fn later(at: Instant, delay: Duration) -> Instant {
    Instant { micros: (at.micros + delay.micros) as i64 }
}

/// Whether `at` moved on by `delay` is still an `Instant`.
pub open spec fn in_time(at: Instant, delay: Duration) -> bool {
    at.micros + delay.micros <= i64::MAX
}

/// The delay of a zero window probe after one that went unanswered: twice as long, but no
/// longer than the longest retransmission timeout.
pub open spec fn next_probe_delay(delay: Duration) -> Duration {
    if delay.micros * 2 <= RTTE_MAX_RTO * 1000 {
        Duration { micros: (delay.micros * 2) as u64 }
    } else {
        Duration { micros: (RTTE_MAX_RTO * 1000) as u64 }
    }
}

impl Timer {
    /// It is time to send a keep-alive.
    pub open spec fn keep_alive_due(self, now: Instant) -> bool {
        self matches Timer::Idle { keep_alive_at: Some(at) } && at.micros <= now.micros
    }

    /// It is time to retransmit.
    pub open spec fn retransmit_due(self, now: Instant) -> bool {
        ||| self is FastRetransmit
        ||| self matches Timer::Retransmit { expires_at: at } && at.micros <= now.micros
    }

    /// It is time to close.
    pub open spec fn close_due(self, now: Instant) -> bool {
        self matches Timer::Close { expires_at: at } && at.micros <= now.micros
    }

    /// It is time to probe a zero window.
    pub open spec fn probe_due(self, now: Instant) -> bool {
        self matches Timer::ZeroWindowProbe { expires_at: at, delay: _ } && at.micros <= now.micros
    }

    /// When something becomes due.
    pub open spec fn due_at(self) -> PollAt {
        match self {
            Timer::Idle { keep_alive_at: None } => PollAt::Ingress,
            Timer::Idle { keep_alive_at: Some(at) } => PollAt::Time(at),
            Timer::Retransmit { expires_at } => PollAt::Time(expires_at),
            Timer::FastRetransmit => PollAt::Now,
            Timer::ZeroWindowProbe { expires_at, delay: _ } => PollAt::Time(expires_at),
            Timer::Close { expires_at } => PollAt::Time(expires_at),
        }
    }

    pub fn new() -> (r: Timer)
        ensures
            r == (Timer::Idle { keep_alive_at: None }),
    {
        Timer::Idle { keep_alive_at: None }
    }

    pub fn should_keep_alive(&self, timestamp: Instant) -> (r: bool)
        ensures
            r == self.keep_alive_due(timestamp),
    {
        match *self {
            Timer::Idle { keep_alive_at: Some(keep_alive_at) } => timestamp >= keep_alive_at,
            _ => false,
        }
    }

    pub fn should_retransmit(&self, timestamp: Instant) -> (r: bool)
        ensures
            r == self.retransmit_due(timestamp),
    {
        match *self {
            Timer::Retransmit { expires_at } => timestamp >= expires_at,
            Timer::FastRetransmit => true,
            _ => false,
        }
    }

    pub fn should_close(&self, timestamp: Instant) -> (r: bool)
        ensures
            r == self.close_due(timestamp),
    {
        match *self {
            Timer::Close { expires_at } => timestamp >= expires_at,
            _ => false,
        }
    }

    pub fn should_zero_window_probe(&self, timestamp: Instant) -> (r: bool)
        ensures
            r == self.probe_due(timestamp),
    {
        match *self {
            Timer::ZeroWindowProbe { expires_at, delay: _ } => timestamp >= expires_at,
            _ => false,
        }
    }

    pub fn poll_at(&self) -> (r: PollAt)
        ensures
            r == self.due_at(),
    {
        match *self {
            Timer::Idle { keep_alive_at: Some(keep_alive_at) } => PollAt::Time(keep_alive_at),
            Timer::Idle { keep_alive_at: None } => PollAt::Ingress,
            Timer::ZeroWindowProbe { expires_at, delay: _ } => PollAt::Time(expires_at),
            Timer::Retransmit { expires_at } => PollAt::Time(expires_at),
            Timer::FastRetransmit => PollAt::Now,
            Timer::Close { expires_at } => PollAt::Time(expires_at),
        }
    }

    /// Goes idle, with a keep-alive after `interval` if there is one.
    pub fn set_for_idle(&mut self, timestamp: Instant, interval: Option<Duration>)
        requires
            interval matches Some(delay) ==> in_time(timestamp, delay),
        ensures
            *final(self) == (Timer::Idle {
                keep_alive_at: match interval {
                    Some(delay) => Some(later(timestamp, delay)),
                    None => None,
                },
            }),
    {
        *self = Timer::Idle {
            keep_alive_at: match interval {
                Some(delay) => Some(timestamp + delay),
                None => None,
            },
        };
    }

    /// Makes an idle timer without a keep-alive send one at once.
    pub fn set_keep_alive(&mut self)
        ensures
            *final(self) == if *old(self) == (Timer::Idle { keep_alive_at: None }) {
                Timer::Idle { keep_alive_at: Some(Instant { micros: 0 }) }
            } else {
                *old(self)
            },
    {
        match *self {
            Timer::Idle { keep_alive_at: None } => {
                *self = Timer::Idle { keep_alive_at: Some(Instant::from_millis(0)) };
            },
            _ => {},
        }
    }

    /// Counts the keep-alive interval of an idle timer anew from `timestamp`.
    pub fn rewind_keep_alive(&mut self, timestamp: Instant, interval: Option<Duration>)
        requires
            *old(self) is Idle ==> (interval matches Some(delay) ==> in_time(timestamp, delay)),
        ensures
            *final(self) == if *old(self) is Idle {
                Timer::Idle {
                    keep_alive_at: match interval {
                        Some(delay) => Some(later(timestamp, delay)),
                        None => None,
                    },
                }
            } else {
                *old(self)
            },
    {
        match *self {
            Timer::Idle { .. } => {
                self.set_for_idle(timestamp, interval);
            },
            _ => {},
        }
    }

    /// Retransmits after `delay`. A socket that is about to close does not retransmit.
    pub fn set_for_retransmit(&mut self, timestamp: Instant, delay: Duration)
        requires
            !(*old(self) is Close) ==> in_time(timestamp, delay),
        ensures
            *final(self) == if *old(self) is Close {
                *old(self)
            } else {
                Timer::Retransmit { expires_at: later(timestamp, delay) }
            },
    {
        match *self {
            Timer::Idle { .. }
            | Timer::FastRetransmit
            | Timer::Retransmit { .. }
            | Timer::ZeroWindowProbe { .. } => {
                *self = Timer::Retransmit { expires_at: timestamp + delay };
            },
            Timer::Close { .. } => {},
        }
    }

    /// Retransmits at once.
    pub fn set_for_fast_retransmit(&mut self)
        ensures
            *final(self) == Timer::FastRetransmit,
    {
        *self = Timer::FastRetransmit;
    }

    /// Closes after the close delay.
    pub fn set_for_close(&mut self, timestamp: Instant)
        requires
            timestamp.micros + CLOSE_DELAY * 1000 <= i64::MAX,
        ensures
            *final(self) == (Timer::Close {
                expires_at: Instant { micros: (timestamp.micros + CLOSE_DELAY * 1000) as i64 },
            }),
    {
        *self = Timer::Close { expires_at: timestamp + Duration::from_millis(CLOSE_DELAY) };
    }

    /// Probes a zero window after `delay`.
    pub fn set_for_zero_window_probe(&mut self, timestamp: Instant, delay: Duration)
        requires
            in_time(timestamp, delay),
        ensures
            *final(self) == (Timer::ZeroWindowProbe {
                expires_at: later(timestamp, delay),
                delay,
            }),
    {
        *self = Timer::ZeroWindowProbe { expires_at: timestamp + delay, delay };
    }

    /// Probes a zero window again, after twice the delay of the probe before, up to a limit.
    pub fn rewind_zero_window_probe(&mut self, timestamp: Instant)
        requires
            *old(self) matches Timer::ZeroWindowProbe { expires_at: _, delay } ==> delay.micros * 2
                <= u64::MAX && in_time(timestamp, next_probe_delay(delay)),
        ensures
            *final(self) == match *old(self) {
                Timer::ZeroWindowProbe { expires_at: _, delay } => Timer::ZeroWindowProbe {
                    expires_at: later(timestamp, next_probe_delay(delay)),
                    delay: next_probe_delay(delay),
                },
                _ => *old(self),
            },
    {
        match *self {
            Timer::ZeroWindowProbe { expires_at: _, delay } => {
                let doubled: Duration = delay * 2;
                let limit: Duration = Duration::from_millis(RTTE_MAX_RTO as u64);
                let delay: Duration = if doubled.micros <= limit.micros {
                    doubled
                } else {
                    limit
                };
                *self = Timer::ZeroWindowProbe { expires_at: timestamp + delay, delay };
            },
            _ => {},
        }
    }

    pub fn is_idle(&self) -> (r: bool)
        ensures
            r == (*self is Idle),
    {
        matches!(self, Timer::Idle { .. })
    }

    pub fn is_zero_window_probe(&self) -> (r: bool)
        ensures
            r == (*self is ZeroWindowProbe),
    {
        matches!(self, Timer::ZeroWindowProbe { .. })
    }

    pub fn is_retransmit(&self) -> (r: bool)
        ensures
            r == (*self is Retransmit || *self is FastRetransmit),
    {
        matches!(self, Timer::Retransmit { .. } | Timer::FastRetransmit)
    }
}

/// The polling time of a timer is right: before it nothing is due, and from it on exactly one
/// thing is.
pub proof fn poll_time_is_right(timer: Timer, now: Instant)
    ensures
        ({
            let due = timer.keep_alive_due(now) || timer.retransmit_due(now) || timer.close_due(now)
                || timer.probe_due(now);
            match timer.due_at() {
                PollAt::Now => due,
                PollAt::Time(at) => due == (at.micros <= now.micros),
                PollAt::Ingress => !due,
            }
        }),
        !(timer.keep_alive_due(now) && timer.retransmit_due(now)),
        !(timer.keep_alive_due(now) && timer.close_due(now)),
        !(timer.keep_alive_due(now) && timer.probe_due(now)),
        !(timer.retransmit_due(now) && timer.close_due(now)),
        !(timer.retransmit_due(now) && timer.probe_due(now)),
        !(timer.close_due(now) && timer.probe_due(now)),
{
}

/// `at` is `delay` microseconds after `now`.
pub open spec fn is_after(at: Instant, now: Instant, delay: int) -> bool {
    at.micros == now.micros + delay
}

/// A keep-alive is due from its time on while the timer is idle, and never else.
pub proof fn keep_alive_comes_due(timer: &Timer, now: Instant, r: bool)
    requires
        call_ensures(Timer::should_keep_alive, (timer, now), r),
    ensures
        match *timer {
            Timer::Idle { keep_alive_at: Some(at) } => r == (now.micros >= at.micros),
            _ => !r,
        },
{
}

/// A retransmission is due from its time on, a fast one at any time, and never else.
pub proof fn retransmission_comes_due(timer: &Timer, now: Instant, r: bool)
    requires
        call_ensures(Timer::should_retransmit, (timer, now), r),
    ensures
        match *timer {
            Timer::Retransmit { expires_at } => r == (now.micros >= expires_at.micros),
            Timer::FastRetransmit => r,
            _ => !r,
        },
{
}

/// Closing is due from its time on, and never else.
pub proof fn closing_comes_due(timer: &Timer, now: Instant, r: bool)
    requires
        call_ensures(Timer::should_close, (timer, now), r),
    ensures
        match *timer {
            Timer::Close { expires_at } => r == (now.micros >= expires_at.micros),
            _ => !r,
        },
{
}

/// A zero window probe is due from its time on, and never else.
pub proof fn probe_comes_due(timer: &Timer, now: Instant, r: bool)
    requires
        call_ensures(Timer::should_zero_window_probe, (timer, now), r),
    ensures
        match *timer {
            Timer::ZeroWindowProbe { expires_at, delay: _ } => r == (now.micros
                >= expires_at.micros),
            _ => !r,
        },
{
}

/// The time to poll is the one at which something comes due: the answers of the four questions
/// change there, and nowhere else.
pub proof fn polling_in_time_misses_nothing(
    timer: &Timer,
    now: Instant,
    poll: PollAt,
    keep_alive: bool,
    retransmit: bool,
    close: bool,
    probe: bool,
)
    requires
        call_ensures(Timer::poll_at, (timer,), poll),
        call_ensures(Timer::should_keep_alive, (timer, now), keep_alive),
        call_ensures(Timer::should_retransmit, (timer, now), retransmit),
        call_ensures(Timer::should_close, (timer, now), close),
        call_ensures(Timer::should_zero_window_probe, (timer, now), probe),
    ensures
        match poll {
            PollAt::Now => retransmit,
            PollAt::Time(at) => (now.micros >= at.micros) == (keep_alive || retransmit || close
                || probe),
            PollAt::Ingress => !keep_alive && !retransmit && !close && !probe,
        },
        poll is Now <==> *timer is FastRetransmit,
        poll is Ingress <==> *timer == (Timer::Idle { keep_alive_at: None }),
{
}

/// A new timer is idle, without a keep-alive.
pub proof fn new_timer_is_idle(r: Timer)
    requires
        call_ensures(Timer::new, (), r),
    ensures
        r == (Timer::Idle { keep_alive_at: None }),
{
}

/// Whatever it was set for, a timer that goes idle sends a keep-alive one interval later, or none
/// without an interval.
pub proof fn idle_timer_keeps_alive(timer: &mut Timer, now: Instant, interval: Option<Duration>)
    requires
        call_ensures(Timer::set_for_idle, (timer, now, interval), ()),
        interval matches Some(delay) ==> now.micros + delay.micros <= i64::MAX,
    ensures
        interval is None ==> *final(timer) == (Timer::Idle { keep_alive_at: None }),
        interval matches Some(delay) ==> (*final(timer) matches Timer::Idle {
            keep_alive_at: Some(at),
        } && is_after(at, now, delay.micros as int)),
{
}

/// A keep-alive is made due at once where there is none; one that is set stays, and so does a
/// timer that is not idle.
pub proof fn missing_keep_alive_is_due_at_once(timer: &mut Timer)
    requires
        call_ensures(Timer::set_keep_alive, (timer,), ()),
    ensures
        *old(timer) == (Timer::Idle { keep_alive_at: None }) ==> (*final(timer) matches Timer::Idle {
            keep_alive_at: Some(at),
        } && at.micros == 0),
        *old(timer) != (Timer::Idle { keep_alive_at: None }) ==> *final(timer) == *old(timer),
{
}

/// A keep-alive is put off to one interval later while the timer is idle, or called off without
/// an interval; any other timer stays.
pub proof fn keep_alive_is_put_off(timer: &mut Timer, now: Instant, interval: Option<Duration>)
    requires
        call_ensures(Timer::rewind_keep_alive, (timer, now, interval), ()),
        interval matches Some(delay) ==> now.micros + delay.micros <= i64::MAX,
    ensures
        *old(timer) is Idle && interval is None ==> *final(timer) == (Timer::Idle {
            keep_alive_at: None,
        }),
        *old(timer) is Idle ==> (interval matches Some(delay) ==> (*final(timer) matches Timer::Idle { keep_alive_at: Some(at) } && is_after(
            at,
            now,
            delay.micros as int,
        ))),
        !(*old(timer) is Idle) ==> *final(timer) == *old(timer),
{
}

/// A retransmission is set for one delay later, whatever the timer was set for, but never in
/// place of closing.
pub proof fn retransmission_is_set(timer: &mut Timer, now: Instant, delay: Duration)
    requires
        call_ensures(Timer::set_for_retransmit, (timer, now, delay), ()),
        now.micros + delay.micros <= i64::MAX,
    ensures
        !(*old(timer) is Close) ==> (*final(timer) matches Timer::Retransmit { expires_at }
            && is_after(expires_at, now, delay.micros as int)),
        *old(timer) is Close ==> *final(timer) == *old(timer),
{
}

/// A fast retransmission replaces everything.
pub proof fn fast_retransmission_is_set(timer: &mut Timer)
    requires
        call_ensures(Timer::set_for_fast_retransmit, (timer,), ()),
    ensures
        *final(timer) is FastRetransmit,
{
}

/// Closing is set for 10 s later, and replaces everything.
pub proof fn closing_is_set(timer: &mut Timer, now: Instant)
    requires
        call_ensures(Timer::set_for_close, (timer, now), ()),
        now.micros + 10_000_000 <= i64::MAX,
    ensures
        *final(timer) matches Timer::Close { expires_at } && is_after(expires_at, now, 10_000_000),
{
}

/// A zero window probe is set for one delay later, and replaces everything.
pub proof fn probe_is_set(timer: &mut Timer, now: Instant, delay: Duration)
    requires
        call_ensures(Timer::set_for_zero_window_probe, (timer, now, delay), ()),
        now.micros + delay.micros <= i64::MAX,
    ensures
        *final(timer) matches Timer::ZeroWindowProbe { expires_at, delay: d } && d == delay
            && is_after(expires_at, now, delay.micros as int),
{
}

/// The next zero window probe comes after twice the delay, but after 60 s at the latest; any
/// other timer stays.
pub proof fn probe_is_put_off(timer: &mut Timer, now: Instant)
    requires
        call_ensures(Timer::rewind_zero_window_probe, (timer, now), ()),
        now.micros + 60_000_000 <= i64::MAX,
    ensures
        *old(timer) matches Timer::ZeroWindowProbe { expires_at: _, delay } ==> (*final(timer) matches Timer::ZeroWindowProbe { expires_at, delay: next } && {
            &&& delay.micros <= 30_000_000 ==> next.micros == 2 * delay.micros
            &&& delay.micros >= 30_000_000 ==> next.micros == 60_000_000
            &&& is_after(expires_at, now, next.micros as int)
        }),
        !(*old(timer) is ZeroWindowProbe) ==> *final(timer) == *old(timer),
{
}

/// A timer says what it runs for.
pub proof fn timer_says_its_purpose(timer: &Timer, idle: bool, probe: bool, retransmit: bool)
    requires
        call_ensures(Timer::is_idle, (timer,), idle),
        call_ensures(Timer::is_zero_window_probe, (timer,), probe),
        call_ensures(Timer::is_retransmit, (timer,), retransmit),
    ensures
        match *timer {
            Timer::Idle { .. } => idle && !probe && !retransmit,
            Timer::ZeroWindowProbe { .. } => !idle && probe && !retransmit,
            Timer::Retransmit { .. } | Timer::FastRetransmit => !idle && !probe && retransmit,
            Timer::Close { .. } => !idle && !probe && !retransmit,
        },
{
}

/// A timer can be set for any time that an instant can hold.
pub proof fn timer_can_be_set(timer: &mut Timer, now: Instant, delay: Duration)
    requires
        now.micros + delay.micros <= i64::MAX,
        now.micros + 60_000_000 <= i64::MAX,
    ensures
        call_requires(Timer::set_for_idle, (timer, now, Some(delay))),
        call_requires(Timer::set_for_idle, (timer, now, None)),
        call_requires(Timer::rewind_keep_alive, (timer, now, Some(delay))),
        call_requires(Timer::rewind_keep_alive, (timer, now, None)),
        call_requires(Timer::set_for_retransmit, (timer, now, delay)),
        call_requires(Timer::set_for_close, (timer, now)),
        call_requires(Timer::set_for_zero_window_probe, (timer, now, delay)),
        (*old(timer) matches Timer::ZeroWindowProbe { expires_at: _, delay: d } ==> 2 * d.micros
            <= u64::MAX) ==> call_requires(Timer::rewind_zero_window_probe, (timer, now)),
{
}

} // verus!
