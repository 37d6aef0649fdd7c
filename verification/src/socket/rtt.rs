use crate::time::{Duration, Instant};
use crate::wire::seq::TcpSeqNumber;
use vstd::prelude::*;

verus! {

/// The retransmission timeout before the first measurement, in milliseconds.
pub const RTTE_INITIAL_RTO: u32 = 1000;

/// The least margin of the retransmission timeout over the smoothed round-trip time.
pub const RTTE_MIN_MARGIN: u32 = 5;

/// The margin, in multiples of the round-trip time variance.
pub const RTTE_K: u32 = 4;

/// The least retransmission timeout, in milliseconds.
pub const RTTE_MIN_RTO: u32 = 1000;

/// The greatest retransmission timeout, in milliseconds.
pub const RTTE_MAX_RTO: u32 = 60_000;

/// Estimates the round-trip time of a connection, in milliseconds, and from it the
/// retransmission timeout (RFC 6298).
#[derive(Debug, Clone, Copy, PartialEq, Eq)]
pub struct RttEstimator {
    /// true if we have made at least one rtt measurement.
    pub have_measurement: bool,
    /// Smoothed RTT
    pub srtt: u32,
    /// RTT variance.
    pub rttvar: u32,
    /// Retransmission Time-Out
    pub rto: u32,
    /// The segment that is being timed: when it was sent, and its sequence number.
    pub timestamp: Option<(Instant, TcpSeqNumber)>,
    /// The greatest sequence number sent so far.
    pub max_seq_sent: Option<TcpSeqNumber>,
    /// Retransmissions since the last measurement, counted up to the limit at which the
    /// estimate is dropped.
    pub rto_count: u8,
}

/// The signed reading of a 32-bit number.
pub open spec fn signed(x: u32) -> int {
    if x <= i32::MAX {
        x as int
    } else {
        x - 0x1_0000_0000
    }
}

pub open spec fn distance(a: int, b: int) -> int {
    if a < b {
        b - a
    } else {
        a - b
    }
}

/// `a / b`, rounded up.
pub open spec fn ceil_div(a: int, b: int) -> int {
    (a + b - 1) / b
}

pub open spec fn clamped(x: int, lo: int, hi: int) -> int {
    if x < lo {
        lo
    } else if x > hi {
        hi
    } else {
        x
    }
}

fn signed_reading(x: u32) -> (r: i32)
    ensures
        r == signed(x),
{
    if x <= i32::MAX as u32 {
        x as i32
    } else {
        (x as i64 - 0x1_0000_0000) as i32
    }
}

fn div_ceil(a: u32, b: u32) -> (r: u32)
    requires
        b > 1,
    ensures
        r == ceil_div(a as int, b as int),
{
    let q: u32 = a / b;
    let rem: u32 = a % b;
    proof {
        vstd::arithmetic::div_mod::lemma_fundamental_div_mod(a as int, b as int);
        assert(q * b == b * q) by (nonlinear_arith);
        if rem == 0 {
            vstd::arithmetic::div_mod::lemma_fundamental_div_mod_converse(
                a + b - 1,
                b as int,
                q as int,
                b - 1,
            );
        } else {
            assert((q + 1) * b == q * b + b) by (nonlinear_arith);
            vstd::arithmetic::div_mod::lemma_fundamental_div_mod_converse(
                a + b - 1,
                b as int,
                q + 1,
                rem - 1,
            );
        }
        assert(q < u32::MAX || rem == 0) by (nonlinear_arith)
            requires
                b > 1,
                a == b * q + rem,
                rem >= 0,
                a <= u32::MAX,
        ;
    }
    if rem == 0 {
        q
    } else {
        q + 1
    }
}

impl RttEstimator {
    /// The retransmission timeout stays between its limits, and the count below its own.
    pub open spec fn wf(self) -> bool {
        &&& RTTE_MIN_RTO <= self.rto <= RTTE_MAX_RTO
        &&& self.rto_count < 3
    }

    /// The smoothed round-trip time after measuring `rtt`: `rtt` itself at first, and an eighth
    /// of the way towards it later.
    pub open spec fn next_srtt(self, rtt: u32) -> int {
        if self.have_measurement {
            ceil_div(self.srtt * 7 + rtt, 8)
        } else {
            rtt as int
        }
    }

    /// The variance after measuring `rtt`: half of `rtt` at first, and a quarter of the way
    /// towards the deviation later.
    pub open spec fn next_rttvar(self, rtt: u32) -> int {
        if self.have_measurement {
            ceil_div(self.rttvar * 3 + distance(signed(self.srtt), signed(rtt)), 4)
        } else {
            (rtt / 2) as int
        }
    }

    /// The timeout after measuring `rtt`, before it is brought within its limits.
    pub open spec fn next_rto(self, rtt: u32) -> int {
        self.next_srtt(rtt) + if self.next_rttvar(rtt) * RTTE_K > RTTE_MIN_MARGIN {
            self.next_rttvar(rtt) * RTTE_K
        } else {
            RTTE_MIN_MARGIN as int
        }
    }

    /// The measurement `rtt` can be taken in without leaving 32-bit arithmetic.
    pub open spec fn in_range(self, rtt: u32) -> bool {
        &&& self.have_measurement ==> {
            &&& i32::MIN <= signed(self.srtt) - signed(rtt) <= i32::MAX
            &&& self.rttvar * 3 + distance(signed(self.srtt), signed(rtt)) <= u32::MAX
            &&& self.srtt * 7 + rtt <= u32::MAX
        }
        &&& self.next_rttvar(rtt) * RTTE_K <= u32::MAX
        &&& self.next_rto(rtt) <= u32::MAX
    }

    /// The estimator after measuring `rtt`.
    pub open spec fn sampled(self, rtt: u32) -> RttEstimator {
        RttEstimator {
            have_measurement: true,
            srtt: self.next_srtt(rtt) as u32,
            rttvar: self.next_rttvar(rtt) as u32,
            rto: clamped(self.next_rto(rtt), RTTE_MIN_RTO as int, RTTE_MAX_RTO as int) as u32,
            rto_count: 0,
            ..self
        }
    }

    /// The measurement that an acknowledgement at `now` of a segment sent at `sent` makes: the
    /// milliseconds between them, modulo 2^32.
    pub open spec fn measured(sent: Instant, now: Instant) -> u32 {
        ((distance(now.micros as int, sent.micros as int) / 1000) % 0x1_0000_0000) as u32
    }

    /// When the segment that is being timed was sent.
    pub open spec fn sent_at(self) -> Instant
        recommends
            self.timestamp is Some,
    {
        (self.timestamp->0).0
    }

    /// An acknowledgement of `seq` ends the measurement that is under way.
    pub open spec fn ends_measurement(self, seq: TcpSeqNumber) -> bool {
        self.timestamp matches Some(t) && seq.ahead_of(t.1) >= 0
    }

    /// The estimator after an acknowledgement of `seq` at `now`.
    pub open spec fn acked(self, now: Instant, seq: TcpSeqNumber) -> RttEstimator {
        if self.ends_measurement(seq) {
            RttEstimator {
                timestamp: None,
                ..self.sampled(RttEstimator::measured(self.sent_at(), now))
            }
        } else {
            self
        }
    }

    /// The estimator after sending `seq` at `now`.
    pub open spec fn sent(self, now: Instant, seq: TcpSeqNumber) -> RttEstimator {
        if self.max_seq_sent matches Some(max) && seq.ahead_of(max) <= 0 {
            self
        } else {
            RttEstimator {
                max_seq_sent: Some(seq),
                timestamp: if self.timestamp is None {
                    Some((now, seq))
                } else {
                    self.timestamp
                },
                ..self
            }
        }
    }

    /// The estimator after a retransmission: no measurement is under way, the timeout is
    /// doubled up to its limit, and on the third one in a row the estimate is dropped.
    pub open spec fn backed_off(self) -> RttEstimator {
        RttEstimator {
            timestamp: None,
            rto: clamped(self.rto * 2, 0, RTTE_MAX_RTO as int) as u32,
            rto_count: if self.rto_count + 1 >= 3 {
                0
            } else {
                (self.rto_count + 1) as u8
            },
            have_measurement: self.have_measurement && self.rto_count + 1 < 3,
            ..self
        }
    }

    pub fn retransmission_timeout(&self) -> (r: Duration)
        ensures
            r.micros == self.rto * 1000,
    {
        Duration::from_millis(self.rto as u64)
    }

    pub fn sample(&mut self, new_rtt: u32)
        requires
            old(self).in_range(new_rtt),
        ensures
            *final(self) == old(self).sampled(new_rtt),
            final(self).wf(),
    {
        if self.have_measurement {
            // RFC 6298 (2.3): a subsequent measurement.
            let gap: i32 = signed_reading(self.srtt) - signed_reading(new_rtt);
            let diff: u32 = if gap < 0 {
                (-(gap as i64)) as u32
            } else {
                gap as u32
            };
            self.rttvar = div_ceil(self.rttvar * 3 + diff, 4);
            self.srtt = div_ceil(self.srtt * 7 + new_rtt, 8);
        } else {
            // RFC 6298 (2.2): the first measurement.
            self.have_measurement = true;
            self.srtt = new_rtt;
            self.rttvar = new_rtt / 2;
        }
        let scaled: u32 = self.rttvar * RTTE_K;
        let margin: u32 = if scaled > RTTE_MIN_MARGIN {
            scaled
        } else {
            RTTE_MIN_MARGIN
        };
        let rto: u32 = self.srtt + margin;
        self.rto = if rto < RTTE_MIN_RTO {
            RTTE_MIN_RTO
        } else if rto > RTTE_MAX_RTO {
            RTTE_MAX_RTO
        } else {
            rto
        };
        self.rto_count = 0;
    }

    pub fn on_send(&mut self, timestamp: Instant, seq: TcpSeqNumber)
        ensures
            *final(self) == old(self).sent(timestamp, seq),
            old(self).wf() ==> final(self).wf(),
    {
        let newest: bool = match self.max_seq_sent {
            Some(max_seq_sent) => seq > max_seq_sent,
            None => true,
        };
        if newest {
            self.max_seq_sent = Some(seq);
            if self.timestamp.is_none() {
                self.timestamp = Some((timestamp, seq));
            }
        }
    }

    pub fn on_ack(&mut self, timestamp: Instant, seq: TcpSeqNumber)
        requires
            old(self).ends_measurement(seq) ==> {
                let sent = old(self).sent_at();
                &&& i64::MIN <= timestamp.micros - sent.micros <= i64::MAX
                &&& old(self).in_range(RttEstimator::measured(sent, timestamp))
            },
        ensures
            *final(self) == old(self).acked(timestamp, seq),
            old(self).wf() ==> final(self).wf(),
    {
        if let Some((sent_timestamp, sent_seq)) = self.timestamp {
            if seq >= sent_seq {
                let millis: u64 = (timestamp - sent_timestamp).total_millis();
                self.sample((millis % 0x1_0000_0000) as u32);
                self.timestamp = None;
            }
        }
    }

    pub fn on_retransmit(&mut self)
        requires
            old(self).wf(),
        ensures
            *final(self) == old(self).backed_off(),
            final(self).wf(),
    {
        self.timestamp = None;

        // RFC 6298 (5.5): back off the timer, up to the maximum of (2.5).
        let doubled: u32 = self.rto * 2;
        self.rto = if doubled < RTTE_MAX_RTO {
            doubled
        } else {
            RTTE_MAX_RTO
        };

        // RFC 6298 (5): after backing off several times the estimate is likely bogus, so the
        // next sample is taken as the first one.
        self.rto_count = self.rto_count + 1;
        if self.rto_count >= 3 {
            self.rto_count = 0;
            self.have_measurement = false;
        }
    }
}

impl Default for RttEstimator {
    fn default() -> (r: RttEstimator)
        ensures
            r == (RttEstimator {
                have_measurement: false,
                srtt: 0,
                rttvar: 0,
                rto: RTTE_INITIAL_RTO,
                timestamp: None,
                max_seq_sent: None,
                rto_count: 0,
            }),
            r.wf(),
    {
        RttEstimator {
            have_measurement: false,
            srtt: 0,
            rttvar: 0,
            rto: RTTE_INITIAL_RTO,
            timestamp: None,
            max_seq_sent: None,
            rto_count: 0,
        }
    }
}

impl RttEstimator {
    /// The estimator after `n` retransmissions in a row.
    pub open spec fn backed_off_times(self, n: nat) -> RttEstimator
        decreases n,
    {
        if n == 0 {
            self
        } else {
            self.backed_off_times((n - 1) as nat).backed_off()
        }
    }
}

/// The timeout grows exponentially with retransmissions, up to its limit.
pub proof fn timeout_doubles(e: RttEstimator, n: nat)
    requires
        e.wf(),
    ensures
        e.backed_off_times(n).wf(),
        e.backed_off_times(n).rto == clamped(
            e.rto * vstd::arithmetic::power2::pow2(n),
            0,
            RTTE_MAX_RTO as int,
        ),
    decreases n,
{
    vstd::arithmetic::power2::lemma2_to64();
    if n > 0 {
        let m = (n - 1) as nat;
        timeout_doubles(e, m);
        vstd::arithmetic::power2::lemma_pow2_unfold(n);
        let p = vstd::arithmetic::power2::pow2(m);
        assert(e.rto * (2 * p) == (e.rto * p) * 2) by (nonlinear_arith);
        assert(e.rto * p >= 0) by (nonlinear_arith);
    } else {
        assert(e.rto * 1 == e.rto);
    }
}

/// Three retransmissions in a row drop the estimate, so that the next measurement counts as the
/// first, and the count starts over.
pub proof fn third_retransmission_drops_estimate(e: RttEstimator)
    requires
        e.wf(),
        e.rto_count == 0,
    ensures
        !e.backed_off_times(3).have_measurement,
        e.backed_off_times(3).rto_count == 0,
        e.backed_off_times(2).have_measurement == e.have_measurement,
{
    reveal_with_fuel(RttEstimator::backed_off_times, 4);
}

/// Smoothing stays between the estimate and the measurement.
pub proof fn smoothing_stays_between(e: RttEstimator, rtt: u32)
    requires
        e.have_measurement,
        e.in_range(rtt),
    ensures
        e.srtt <= rtt ==> e.srtt <= e.sampled(rtt).srtt <= rtt,
        rtt <= e.srtt ==> rtt <= e.sampled(rtt).srtt <= e.srtt,
{
}

/// A measurement is never taken from a segment that was retransmitted: after a retransmission
/// an acknowledgement changes nothing until new data is sent.
pub proof fn retransmitted_segment_is_not_measured(
    e: RttEstimator,
    now: Instant,
    seq: TcpSeqNumber,
)
    ensures
        e.backed_off().acked(now, seq) == e.backed_off(),
{
}

/// The timeout is the smoothed round-trip time plus four times the variance, or plus 5 ms if that
/// is more, brought within 1 s and 60 s. A measurement ends a row of retransmissions, and leaves
/// alone what is being timed and what was sent.
pub open spec fn timeout_set(before: RttEstimator, after: RttEstimator) -> bool {
    let margin = if 4 * after.rttvar >= 5 {
        4 * after.rttvar
    } else {
        5
    };
    &&& 1000 <= after.rto <= 60_000
    &&& 1000 <= after.srtt + margin <= 60_000 ==> after.rto == after.srtt + margin
    &&& after.srtt + margin < 1000 ==> after.rto == 1000
    &&& after.srtt + margin > 60_000 ==> after.rto == 60_000
    &&& after.have_measurement
    &&& after.rto_count == 0
    &&& after.timestamp == before.timestamp
    &&& after.max_seq_sent == before.max_seq_sent
}

/// The smoothed round-trip time goes an eighth of the way to the measurement, and the variance a
/// quarter of the way to the deviation `gap`, both rounded up; neither overshoots.
pub open spec fn estimate_moved(
    before: RttEstimator,
    after: RttEstimator,
    rtt: u32,
    gap: int,
) -> bool {
    &&& 3 * before.rttvar + gap <= 4 * after.rttvar <= 3 * before.rttvar + gap + 3
    &&& before.rttvar <= gap ==> before.rttvar <= after.rttvar <= gap
    &&& gap <= before.rttvar ==> gap <= after.rttvar <= before.rttvar
    &&& 7 * before.srtt + rtt <= 8 * after.srtt <= 7 * before.srtt + rtt + 7
    &&& before.srtt <= rtt ==> before.srtt <= after.srtt <= rtt
    &&& rtt <= before.srtt ==> rtt <= after.srtt <= before.srtt
}

/// A later measurement moves the variance towards its deviation from the smoothed round-trip
/// time, whether it lies above that or below, and sets the timeout.
pub proof fn measurement_moves_the_estimate(e: &mut RttEstimator, rtt: u32)
    requires
        call_ensures(RttEstimator::sample, (e, rtt), ()),
        old(e).have_measurement,
        old(e).srtt <= i32::MAX,
        rtt <= i32::MAX,
    ensures
        rtt >= old(e).srtt ==> estimate_moved(*old(e), *final(e), rtt, rtt - old(e).srtt),
        rtt <= old(e).srtt ==> estimate_moved(*old(e), *final(e), rtt, old(e).srtt - rtt),
        timeout_set(*old(e), *final(e)),
{
}

/// Outside of that range the deviation is the distance between the two numbers going round
/// 32-bit arithmetic the other way, where exactly one of them has its highest bit set.
pub proof fn huge_measurement_moves_the_estimate(e: &mut RttEstimator, rtt: u32)
    requires
        call_ensures(RttEstimator::sample, (e, rtt), ()),
        old(e).have_measurement,
    ensures
        old(e).srtt > i32::MAX && rtt > i32::MAX && rtt >= old(e).srtt ==> estimate_moved(
            *old(e),
            *final(e),
            rtt,
            rtt - old(e).srtt,
        ),
        old(e).srtt > i32::MAX && rtt > i32::MAX && rtt <= old(e).srtt ==> estimate_moved(
            *old(e),
            *final(e),
            rtt,
            old(e).srtt - rtt,
        ),
        old(e).srtt <= i32::MAX < rtt && rtt - old(e).srtt > 0 ==> estimate_moved(
            *old(e),
            *final(e),
            rtt,
            0x1_0000_0000 - (rtt - old(e).srtt),
        ),
        rtt <= i32::MAX < old(e).srtt ==> estimate_moved(
            *old(e),
            *final(e),
            rtt,
            0x1_0000_0000 - (old(e).srtt - rtt),
        ),
        timeout_set(*old(e), *final(e)),
{
}

/// The first measurement is the estimate, half of it the variance, whatever was there before.
pub proof fn first_measurement_is_the_estimate(e: &mut RttEstimator, rtt: u32)
    requires
        call_ensures(RttEstimator::sample, (e, rtt), ()),
        !old(e).have_measurement,
    ensures
        final(e).srtt == rtt,
        2 * final(e).rttvar <= rtt <= 2 * final(e).rttvar + 1,
        timeout_set(*old(e), *final(e)),
{
}

/// Measurements of up to 2^28 ms can always be taken in, and keep the estimate within 2^28 ms.
pub proof fn ordinary_measurement_is_taken(e: &mut RttEstimator, rtt: u32)
    requires
        old(e).srtt <= 0x1000_0000,
        old(e).rttvar <= 0x1000_0000,
        rtt <= 0x1000_0000,
    ensures
        call_requires(RttEstimator::sample, (e, rtt)),
        call_ensures(RttEstimator::sample, (e, rtt), ()) ==> final(e).srtt <= 0x1000_0000 && final(
            e).rttvar <= 0x1000_0000,
{
}

/// A retransmission can be reported whenever the timeout is within 1 s and 60 s and fewer than
/// three retransmissions have been counted.
pub proof fn retransmission_can_be_reported(e: &mut RttEstimator)
    requires
        1000 <= old(e).rto <= 60_000,
        old(e).rto_count <= 2,
    ensures
        call_requires(RttEstimator::on_retransmit, (e,)),
{
}

/// An acknowledgement within 2^28 ms of what is being timed can always be reported.
pub proof fn ordinary_acknowledgement_can_be_reported(
    e: &mut RttEstimator,
    now: Instant,
    seq: TcpSeqNumber,
)
    requires
        old(e).srtt <= 0x1000_0000,
        old(e).rttvar <= 0x1000_0000,
        old(e).timestamp matches Some(t) ==> 0 <= now.micros - t.0.micros <= 0x1000_0000 * 1000,
    ensures
        call_requires(RttEstimator::on_ack, (e, now, seq)),
{
    if old(e).timestamp is Some {
        let elapsed = distance(now.micros as int, old(e).sent_at().micros as int);
        assert(0 <= elapsed / 1000 <= 0x1000_0000);
        assert(RttEstimator::measured(old(e).sent_at(), now) <= 0x1000_0000);
    }
}

/// The timeout as a span of time is as many milliseconds as the estimator says.
pub proof fn timeout_is_in_milliseconds(e: &RttEstimator, r: Duration)
    requires
        call_ensures(RttEstimator::retransmission_timeout, (e,), r),
    ensures
        r.micros == e.rto * 1000,
{
}

/// Sending something new, `n` octets ahead of the newest, makes it the newest, and starts timing
/// it unless something is being timed already. Sending anything else changes nothing.
pub proof fn only_new_data_is_timed(
    e: &mut RttEstimator,
    now: Instant,
    seq: TcpSeqNumber,
    newest: TcpSeqNumber,
    n: int,
)
    requires
        call_ensures(RttEstimator::on_send, (e, now, seq), ()),
        old(e).max_seq_sent is None || old(e).max_seq_sent == Some(newest) && seq == newest.plus(n),
        i32::MIN <= n <= i32::MAX,
    ensures
        old(e).max_seq_sent is None || n > 0 ==> {
            &&& final(e).max_seq_sent == Some(seq)
            &&& old(e).timestamp is None ==> final(e).timestamp == Some((now, seq))
            &&& old(e).timestamp is Some ==> final(e).timestamp == old(e).timestamp
        },
        old(e).max_seq_sent is Some && n <= 0 ==> *final(e) == *old(e),
        final(e).have_measurement == old(e).have_measurement,
        final(e).srtt == old(e).srtt,
        final(e).rttvar == old(e).rttvar,
        final(e).rto == old(e).rto,
        final(e).rto_count == old(e).rto_count,
{
    assert(newest.plus(n).ahead_of(newest) == n);
}

proof fn lemma_measured(sent: Instant, now: Instant, rtt: u32, rounds: nat)
    requires
        ({
            let millis = rtt + rounds * 0x1_0000_0000;
            ||| millis * 1000 <= now.micros - sent.micros < millis * 1000 + 1000
            ||| millis * 1000 <= sent.micros - now.micros < millis * 1000 + 1000
        }),
    ensures
        RttEstimator::measured(sent, now) == rtt,
{
    let elapsed = distance(now.micros as int, sent.micros as int);
    assert(elapsed / 1000 == rtt + rounds * 0x1_0000_0000);
}

/// An acknowledgement of what is being timed, or of anything up to 2^31 - 1 octets ahead of it,
/// is a measurement of the milliseconds between then and now, modulo 2^32, and ends the timing.
pub proof fn acknowledgement_is_a_measurement(
    e: &mut RttEstimator,
    twin: &mut RttEstimator,
    now: Instant,
    sent: Instant,
    timed: TcpSeqNumber,
    n: int,
    rtt: u32,
    rounds: nat,
)
    requires
        call_ensures(RttEstimator::on_ack, (e, now, timed.plus(n)), ()),
        call_ensures(RttEstimator::sample, (twin, rtt), ()),
        *old(twin) == *old(e),
        old(e).timestamp == Some((sent, timed)),
        0 <= n <= i32::MAX,
        ({
            let millis = rtt + rounds * 0x1_0000_0000;
            ||| millis * 1000 <= now.micros - sent.micros < millis * 1000 + 1000
            ||| millis * 1000 <= sent.micros - now.micros < millis * 1000 + 1000
        }),
    ensures
        final(e).timestamp is None,
        final(e).have_measurement == final(twin).have_measurement,
        final(e).srtt == final(twin).srtt,
        final(e).rttvar == final(twin).rttvar,
        final(e).rto == final(twin).rto,
        final(e).rto_count == final(twin).rto_count,
        final(e).max_seq_sent == final(twin).max_seq_sent,
{
    crate::wire::seq::distance_undoes_addition(timed, n);
    lemma_measured(sent, now, rtt, rounds);
}

/// An acknowledgement of something before what is being timed changes nothing, and neither does
/// any acknowledgement while nothing is.
pub proof fn other_acknowledgement_is_no_measurement(
    e: &mut RttEstimator,
    now: Instant,
    sent: Instant,
    timed: TcpSeqNumber,
    n: int,
)
    requires
        call_ensures(RttEstimator::on_ack, (e, now, timed.plus(n)), ()),
        old(e).timestamp is None || old(e).timestamp == Some((sent, timed)) && i32::MIN <= n < 0,
    ensures
        *final(e) == *old(e),
{
    if old(e).timestamp is Some {
        assert(timed.plus(n).ahead_of(timed) == n);
    }
}

/// A retransmission stops the timing and doubles the timeout, up to 60 s. The third one in a row
/// drops the estimate and starts counting anew; the numbers themselves stay.
pub proof fn retransmission_backs_off(e: &mut RttEstimator)
    requires
        call_ensures(RttEstimator::on_retransmit, (e,), ()),
        1000 <= old(e).rto <= 60_000,
        old(e).rto_count <= 2,
    ensures
        final(e).timestamp is None,
        old(e).rto <= 30_000 ==> final(e).rto == 2 * old(e).rto,
        old(e).rto >= 30_000 ==> final(e).rto == 60_000,
        old(e).rto_count < 2 ==> final(e).rto_count == old(e).rto_count + 1
            && final(e).have_measurement == old(e).have_measurement,
        old(e).rto_count == 2 ==> final(e).rto_count == 0 && !final(e).have_measurement,
        final(e).srtt == old(e).srtt,
        final(e).rttvar == old(e).rttvar,
        final(e).max_seq_sent == old(e).max_seq_sent,
{
}

} // verus!
