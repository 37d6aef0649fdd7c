use vtcp::{Duration, Instant, PollAt, RttEstimator, TcpSeqNumber, Timer};

fn at(millis: i64) -> Instant {
    Instant::from_millis(millis)
}

fn ms(millis: u64) -> Duration {
    Duration::from_millis(millis)
}

fn due(timer: &Timer, now: Instant) -> usize {
    [
        timer.should_keep_alive(now),
        timer.should_retransmit(now),
        timer.should_close(now),
        timer.should_zero_window_probe(now),
    ]
    .iter()
    .filter(|due| **due)
    .count()
}

#[test]
fn clock_is_read() {
    // 2020-01-01T00:00:00Z
    assert!(Instant::now().micros > 1_577_836_800_000_000);
}

#[test]
fn clock_reading_is_kept_in_range() {
    assert_eq!(Instant::from_clock(Ok(17)), Instant::from_micros(17));
    assert_eq!(Instant::from_clock(Err(17)), Instant::from_micros(-17));
    assert_eq!(Instant::from_clock(Ok(u128::MAX)), Instant::from_micros(i64::MAX));
    assert_eq!(Instant::from_clock(Err(u128::MAX)), Instant::from_micros(-i64::MAX));
}

#[test]
fn time_arithmetic() {
    assert_eq!(at(3) + ms(4), at(7));
    assert_eq!(at(3) - at(7), ms(4));
    assert_eq!(at(7) - at(3), ms(4));
    assert_eq!(ms(5) * 2, ms(10));
    assert_eq!(Duration::from_micros(2999).total_millis(), 2);
    assert!(at(3) < at(7) && at(7) >= at(7) && !(at(7) > at(7)));
}

#[test]
fn poll_time_matches_what_is_due() {
    let mut timers = [Timer::new(); 6];
    timers[1].set_for_idle(at(10), Some(ms(5)));
    timers[2].set_for_retransmit(at(10), ms(5));
    timers[3].set_for_fast_retransmit();
    timers[4].set_for_close(at(10));
    timers[5].set_for_zero_window_probe(at(10), ms(5));
    assert_eq!(timers[0].poll_at(), PollAt::Ingress);
    assert_eq!(timers[1].poll_at(), PollAt::Time(at(15)));
    assert_eq!(timers[2].poll_at(), PollAt::Time(at(15)));
    assert_eq!(timers[3].poll_at(), PollAt::Now);
    assert_eq!(timers[4].poll_at(), PollAt::Time(at(10_010)));
    assert_eq!(timers[5].poll_at(), PollAt::Time(at(15)));
    for timer in &timers {
        for now in [at(14), at(15), at(10_009), at(10_010)] {
            let expected = match timer.poll_at() {
                PollAt::Now => 1,
                PollAt::Time(at) => (at <= now) as usize,
                PollAt::Ingress => 0,
            };
            assert_eq!(due(timer, now), expected);
        }
    }
    assert!(timers[0].is_idle() && timers[1].is_idle() && !timers[2].is_idle());
    assert!(timers[2].is_retransmit() && timers[3].is_retransmit() && !timers[4].is_retransmit());
    assert!(timers[5].is_zero_window_probe() && !timers[4].is_zero_window_probe());
}

#[test]
fn keep_alive_is_set_and_rewound() {
    let mut timer = Timer::new();
    timer.set_keep_alive();
    assert_eq!(timer, Timer::Idle { keep_alive_at: Some(at(0)) });
    timer.rewind_keep_alive(at(20), Some(ms(3)));
    assert_eq!(timer, Timer::Idle { keep_alive_at: Some(at(23)) });
    timer.set_keep_alive();
    assert_eq!(timer, Timer::Idle { keep_alive_at: Some(at(23)) });
    timer.rewind_keep_alive(at(20), None);
    assert_eq!(timer, Timer::new());
    timer.set_for_fast_retransmit();
    timer.set_keep_alive();
    timer.rewind_keep_alive(at(20), Some(ms(3)));
    assert_eq!(timer, Timer::FastRetransmit);
}

#[test]
fn closing_timer_does_not_retransmit() {
    let mut timer = Timer::new();
    timer.set_for_close(at(0));
    timer.set_for_retransmit(at(1), ms(1));
    assert_eq!(timer, Timer::Close { expires_at: at(10_000) });
    assert!(!timer.should_close(at(9_999)));
    assert!(timer.should_close(at(10_000)));
}

#[test]
fn probe_delay_doubles_up_to_a_minute() {
    let mut timer = Timer::new();
    timer.rewind_zero_window_probe(at(1));
    assert_eq!(timer, Timer::new());
    timer.set_for_zero_window_probe(at(0), ms(20_000));
    timer.rewind_zero_window_probe(at(1));
    assert_eq!(timer, Timer::ZeroWindowProbe { expires_at: at(40_001), delay: ms(40_000) });
    timer.rewind_zero_window_probe(at(2));
    assert_eq!(timer, Timer::ZeroWindowProbe { expires_at: at(60_002), delay: ms(60_000) });
    timer.rewind_zero_window_probe(at(3));
    assert_eq!(timer, Timer::ZeroWindowProbe { expires_at: at(60_003), delay: ms(60_000) });
}

#[test]
fn first_sample_sets_the_estimate() {
    let mut rtte = RttEstimator::default();
    assert_eq!(rtte.retransmission_timeout(), ms(1000));
    rtte.sample(900);
    assert!(rtte.have_measurement);
    assert_eq!((rtte.srtt, rtte.rttvar, rtte.rto), (900, 450, 2700));
    assert_eq!(rtte.retransmission_timeout(), ms(2700));
}

#[test]
fn later_samples_smooth_the_estimate() {
    let mut rtte = RttEstimator::default();
    rtte.sample(900);
    rtte.sample(500);
    // ceil((3 * 450 + 400) / 4) and ceil((7 * 900 + 500) / 8)
    assert_eq!((rtte.srtt, rtte.rttvar, rtte.rto), (850, 438, 2602));
    rtte.sample(850);
    assert_eq!((rtte.srtt, rtte.rttvar), (850, 329));
    assert!(500 <= rtte.srtt && rtte.srtt <= 900);
}

#[test]
fn timeout_stays_within_its_limits() {
    let mut rtte = RttEstimator::default();
    rtte.sample(1);
    assert_eq!((rtte.srtt, rtte.rttvar, rtte.rto), (1, 0, 1000));
    let mut rtte = RttEstimator::default();
    rtte.sample(100_000);
    assert_eq!(rtte.rto, 60_000);
}

#[test]
fn deviation_is_taken_in_signed_arithmetic() {
    let mut rtte = RttEstimator::default();
    rtte.sample(0);
    rtte.sample(0x8000_0001);
    // The measurement reads as -(2^31 - 1).
    assert_eq!((rtte.srtt, rtte.rttvar, rtte.rto), (0x1000_0001, 0x2000_0000, 60_000));
}

#[test]
fn timeout_doubles_on_retransmission() {
    let mut rtte = RttEstimator::default();
    let mut expected = [2000, 4000, 8000, 16_000, 32_000, 60_000, 60_000].into_iter();
    for _ in 0..7 {
        rtte.on_retransmit();
        assert_eq!(Some(rtte.rto), expected.next());
    }
}

#[test]
fn third_retransmission_drops_the_estimate() {
    let mut rtte = RttEstimator::default();
    rtte.sample(900);
    rtte.on_retransmit();
    rtte.on_retransmit();
    assert!(rtte.have_measurement);
    assert_eq!(rtte.rto_count, 2);
    rtte.on_retransmit();
    assert!(!rtte.have_measurement);
    assert_eq!(rtte.rto_count, 0);
    // The next sample counts as the first.
    rtte.sample(100);
    assert_eq!((rtte.srtt, rtte.rttvar), (100, 50));
}

#[test]
fn newest_segment_is_timed() {
    let mut rtte = RttEstimator::default();
    rtte.on_send(at(10), TcpSeqNumber(100));
    assert_eq!(rtte.timestamp, Some((at(10), TcpSeqNumber(100))));
    rtte.on_send(at(11), TcpSeqNumber(200));
    assert_eq!(rtte.timestamp, Some((at(10), TcpSeqNumber(100))));
    assert_eq!(rtte.max_seq_sent, Some(TcpSeqNumber(200)));
    rtte.on_send(at(12), TcpSeqNumber(150));
    assert_eq!(rtte.max_seq_sent, Some(TcpSeqNumber(200)));
    // An acknowledgement of something older does not end the measurement.
    rtte.on_ack(at(400), TcpSeqNumber(99));
    assert!(!rtte.have_measurement);
    rtte.on_ack(at(710), TcpSeqNumber(100));
    assert_eq!((rtte.srtt, rtte.timestamp), (700, None));
}

#[test]
fn retransmitted_segment_is_not_timed() {
    let mut rtte = RttEstimator::default();
    rtte.on_send(at(10), TcpSeqNumber(100));
    rtte.on_retransmit();
    rtte.on_ack(at(20), TcpSeqNumber(100));
    assert!(!rtte.have_measurement);
    // Sending old data again does not start a measurement either.
    rtte.on_send(at(30), TcpSeqNumber(100));
    assert_eq!(rtte.timestamp, None);
}
