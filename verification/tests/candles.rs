use tickstream::candles::{CandleAggregator, CandleInterval, HISTORY_CAP};

// A timestamp aligned to a one-minute bucket boundary.
const T0: u64 = 1_700_000_040;

#[test]
fn three_ticks_build_one_candle() {
    assert_eq!(T0 % 60, 0);
    let mut a = CandleAggregator::new(CandleInterval::OneMinute);
    a.ingest(10, 100, T0);
    a.ingest(12, 100, T0 + 1);
    a.ingest(9, 100, T0 + 2);
    let c = a.current.unwrap();
    assert_eq!(c.open, 10);
    assert_eq!(c.high, 12);
    assert_eq!(c.low, 9);
    assert_eq!(c.close, 9);
    assert_eq!(c.volume, 300);
    assert_eq!(c.trade_count, 3);
    assert_eq!(c.bucket_start, T0);
    assert_eq!(a.history.len(), 0);
}

#[test]
fn candle_invariant_holds_after_each_tick() {
    let mut a = CandleAggregator::new(CandleInterval::OneMinute);
    for (p, t) in [(5u64, T0), (50, T0 + 5), (1, T0 + 10), (30, T0 + 15)] {
        a.ingest(p, 1, t);
        let c = a.current.unwrap();
        assert!(c.low <= c.open && c.open <= c.high);
        assert!(c.low <= c.close && c.close <= c.high);
        assert!(c.trade_count >= 1);
    }
}

#[test]
fn bucket_rollover_finalizes_the_first_candle() {
    let mut a = CandleAggregator::new(CandleInterval::OneMinute);
    a.ingest(10, 100, T0);
    a.ingest(11, 50, T0 + 61);
    assert_eq!(a.history.len(), 1);
    let first = a.history[0];
    assert_eq!(first.open, 10);
    assert_eq!(first.close, 10);
    assert_eq!(first.volume, 100);
    assert_eq!(first.bucket_start, T0);
    let second = a.current.unwrap();
    assert_eq!(second.open, 11);
    assert_eq!(second.bucket_start, T0 + 60);
    assert_eq!(second.trade_count, 1);
}

#[test]
fn sixty_one_rollovers_evict_the_oldest_candle() {
    let mut a = CandleAggregator::new(CandleInterval::OneMinute);
    // 62 ticks in 62 distinct buckets: 61 rollovers.
    for k in 0..62u64 {
        a.ingest(k + 1, 1, T0 + 60 * k);
    }
    assert_eq!(a.history.len(), HISTORY_CAP);
    assert_eq!(HISTORY_CAP, 60);
    // The very first bucket was evicted: history now opens with the second.
    assert_eq!(a.history[0].bucket_start, T0 + 60);
    assert_eq!(a.history[59].bucket_start, T0 + 60 * 60);
    assert!(a.history.iter().all(|c| c.bucket_start != T0));
    assert_eq!(a.current.unwrap().bucket_start, T0 + 60 * 61);
}

#[test]
fn changing_the_interval_finalizes_the_open_candle() {
    let mut a = CandleAggregator::new(CandleInterval::OneMinute);
    a.ingest(10, 1, T0 + 30);
    a.set_interval(CandleInterval::FiveMinutes);
    assert_eq!(a.interval_secs, 300);
    assert!(a.current.is_none());
    assert_eq!(a.history.len(), 1);
    assert_eq!(a.history[0].open, 10);
}

#[test]
fn interval_values_and_labels() {
    assert_eq!(CandleInterval::OneMinute.to_secs(), 60);
    assert_eq!(CandleInterval::FiveMinutes.to_secs(), 300);
    assert_eq!(CandleInterval::FifteenMinutes.to_secs(), 900);
    assert_eq!(CandleInterval::ThirtyMinutes.to_secs(), 1800);
    assert_eq!(CandleInterval::OneHour.to_secs(), 3600);
    assert_eq!(CandleInterval::OneMinute.to_string(), "1m");
    assert_eq!(CandleInterval::OneHour.to_string(), "1h");
    assert_eq!(CandleInterval::OneMinute.to_finnhub_resolution(), "1");
    assert_eq!(CandleInterval::OneHour.to_finnhub_resolution(), "60");
}

#[test]
fn interval_cycle_is_closed() {
    let mut i = CandleInterval::OneMinute;
    for _ in 0..5 {
        i = i.next();
    }
    assert!(matches!(i, CandleInterval::OneMinute));
    assert!(matches!(CandleInterval::OneMinute.prev(), CandleInterval::OneHour));
    assert!(matches!(CandleInterval::OneHour.next(), CandleInterval::OneMinute));
}

#[test]
fn out_of_order_tick_reopens_a_past_bucket() {
    // Documented limitation: a late tick is bucketed by its own key and
    // rolls the current candle over, rather than amending history.
    let mut a = CandleAggregator::new(CandleInterval::OneMinute);
    a.ingest(10, 1, T0 + 60);
    a.ingest(9, 1, T0);
    assert_eq!(a.history.len(), 1);
    assert_eq!(a.current.unwrap().bucket_start, T0);
}
