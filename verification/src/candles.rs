//! Trade-to-candle aggregation: turns a timestamped tick stream into a
//! rolling series of fixed-interval OHLCV candlesticks.
//!
//! Prices are carried as fixed-point integers (see `frames::PRICE_SCALE`),
//! timestamps as whole seconds since the Unix epoch.  Two ticks land in
//! the same candle exactly when `floor(t / interval) * interval` agrees.
//! At most `HISTORY_CAP` finalized candles are kept; the oldest is evicted
//! first.

use vstd::prelude::*;

verus! {

use vstd::arithmetic::div_mod::lemma_fundamental_div_mod;
use vstd::arithmetic::div_mod::lemma_mod_bound;
use vstd::arithmetic::div_mod::lemma_div_is_ordered;
use vstd::arithmetic::div_mod::lemma_div_multiples_vanish;

/// How many finalized candles are kept.
pub const HISTORY_CAP: usize = 60;

/// Width of one live candle bucket.
#[derive(Debug, Clone, Copy, PartialEq, Eq, Structural)]
pub enum CandleInterval {
    OneMinute,
    FiveMinutes,
    FifteenMinutes,
    ThirtyMinutes,
    OneHour,
}

impl CandleInterval {
    /// The bucket width in seconds.
    pub open spec fn spec_secs(self) -> u64 {
        match self {
            CandleInterval::OneMinute => 60,
            CandleInterval::FiveMinutes => 300,
            CandleInterval::FifteenMinutes => 900,
            CandleInterval::ThirtyMinutes => 1800,
            CandleInterval::OneHour => 3600,
        }
    }

    pub fn to_secs(&self) -> (r: u64)
        ensures
            r == self.spec_secs(),
            r > 0,
    {
        match self {
            CandleInterval::OneMinute => 60,
            CandleInterval::FiveMinutes => 300,
            CandleInterval::FifteenMinutes => 900,
            CandleInterval::ThirtyMinutes => 1800,
            CandleInterval::OneHour => 3600,
        }
    }

    /// The short label shown to the user.
    pub fn to_string(&self) -> (r: &'static str)
        ensures
            r@ == (match *self {
                CandleInterval::OneMinute => "1m"@,
                CandleInterval::FiveMinutes => "5m"@,
                CandleInterval::FifteenMinutes => "15m"@,
                CandleInterval::ThirtyMinutes => "30m"@,
                CandleInterval::OneHour => "1h"@,
            }),
    {
        match self {
            CandleInterval::OneMinute => "1m",
            CandleInterval::FiveMinutes => "5m",
            CandleInterval::FifteenMinutes => "15m",
            CandleInterval::ThirtyMinutes => "30m",
            CandleInterval::OneHour => "1h",
        }
    }

    /// The resolution parameter of the historical-candle endpoint.
    pub fn to_finnhub_resolution(&self) -> (r: &'static str)
        ensures
            r@ == (match *self {
                CandleInterval::OneMinute => "1"@,
                CandleInterval::FiveMinutes => "5"@,
                CandleInterval::FifteenMinutes => "15"@,
                CandleInterval::ThirtyMinutes => "30"@,
                CandleInterval::OneHour => "60"@,
            }),
    {
        match self {
            CandleInterval::OneMinute => "1",
            CandleInterval::FiveMinutes => "5",
            CandleInterval::FifteenMinutes => "15",
            CandleInterval::ThirtyMinutes => "30",
            CandleInterval::OneHour => "60",
        }
    }

    /// The next narrower interval in the cycle.
    pub fn prev(&self) -> (r: Self)
        ensures
            r == (match *self {
                CandleInterval::OneMinute => CandleInterval::OneHour,
                CandleInterval::FiveMinutes => CandleInterval::OneMinute,
                CandleInterval::FifteenMinutes => CandleInterval::FiveMinutes,
                CandleInterval::ThirtyMinutes => CandleInterval::FifteenMinutes,
                CandleInterval::OneHour => CandleInterval::ThirtyMinutes,
            }),
    {
        match self {
            CandleInterval::OneMinute => CandleInterval::OneHour,
            CandleInterval::FiveMinutes => CandleInterval::OneMinute,
            CandleInterval::FifteenMinutes => CandleInterval::FiveMinutes,
            CandleInterval::ThirtyMinutes => CandleInterval::FifteenMinutes,
            CandleInterval::OneHour => CandleInterval::ThirtyMinutes,
        }
    }

    /// The next wider interval in the cycle.
    pub fn next(&self) -> (r: Self)
        ensures
            r == (match *self {
                CandleInterval::OneMinute => CandleInterval::FiveMinutes,
                CandleInterval::FiveMinutes => CandleInterval::FifteenMinutes,
                CandleInterval::FifteenMinutes => CandleInterval::ThirtyMinutes,
                CandleInterval::ThirtyMinutes => CandleInterval::OneHour,
                CandleInterval::OneHour => CandleInterval::OneMinute,
            }),
    {
        match self {
            CandleInterval::OneMinute => CandleInterval::FiveMinutes,
            CandleInterval::FiveMinutes => CandleInterval::FifteenMinutes,
            CandleInterval::FifteenMinutes => CandleInterval::ThirtyMinutes,
            CandleInterval::ThirtyMinutes => CandleInterval::OneHour,
            CandleInterval::OneHour => CandleInterval::OneMinute,
        }
    }
}

/// One OHLCV bucket.  `bucket_start` is the bucket key of the first tick
/// that opened it: the tick's timestamp rounded down to a multiple of the
/// interval that was active at that moment.
#[derive(Debug, Clone, Copy, PartialEq, Eq, Structural)]
pub struct Candlestick {
    pub open: u64,
    pub high: u64,
    pub low: u64,
    pub close: u64,
    pub volume: u64,
    pub bucket_start: u64,
    pub trade_count: u32,
}

impl Candlestick {
    /// Holds of every candle the aggregator ever produces.
    pub open spec fn wf(self) -> bool {
        &&& self.low <= self.open <= self.high
        &&& self.low <= self.close <= self.high
        &&& self.trade_count >= 1
    }
}

/// The bucket key of timestamp `t` at width `interval`.
pub open spec fn spec_bucket(t: u64, interval: u64) -> u64
    recommends
        interval > 0,
{
    ((t / interval) * interval) as u64
}

/// The bucket key never exceeds the timestamp and is a multiple of the
/// interval, so computing it in `u64` is exact.
pub proof fn lemma_bucket_fits(t: u64, interval: u64)
    requires
        interval > 0,
    ensures
        (t as int / interval as int) * interval as int <= t as int,
        0 <= (t as int / interval as int) * interval as int,
        spec_bucket(t, interval) == (t as int / interval as int) * interval as int,
        spec_bucket(t, interval) as int % interval as int == 0,
{
    lemma_fundamental_div_mod(t as int, interval as int);
    lemma_mod_bound(t as int, interval as int);
    let q = t as int / interval as int;
    assert(interval as int * q == q * interval as int) by (nonlinear_arith);
    assert(q * interval as int == t as int - (t as int % interval as int));
    assert(q >= 0) by {
        lemma_div_is_ordered(0, t as int, interval as int);
        lemma_div_multiples_vanish(0, interval as int);
    };
    assert(q * interval as int >= 0) by (nonlinear_arith)
        requires
            q >= 0,
            interval as int > 0,
    ;
    assert((q * interval as int) % interval as int == 0) by {
        lemma_div_multiples_vanish(q, interval as int);
        lemma_fundamental_div_mod(q * interval as int, interval as int);
        assert(interval as int * q == q * interval as int) by (nonlinear_arith);
    };
}

/// A candle opened by a single tick.
pub open spec fn spec_start_candle(price: u64, volume: u64, bucket: u64) -> Candlestick {
    Candlestick {
        open: price,
        high: price,
        low: price,
        close: price,
        volume,
        bucket_start: bucket,
        trade_count: 1,
    }
}

/// A candle after absorbing one more tick of its own bucket.
pub open spec fn spec_absorb(c: Candlestick, price: u64, volume: u64) -> Candlestick {
    Candlestick {
        high: if price > c.high { price } else { c.high },
        low: if price < c.low { price } else { c.low },
        close: price,
        volume: (c.volume + volume) as u64,
        trade_count: (c.trade_count + 1) as u32,
        ..c
    }
}

/// The history after finalizing `c` into it: appended at the back, the
/// oldest candle evicted when the buffer is full.
pub open spec fn spec_push_evict(h: Seq<Candlestick>, c: Candlestick) -> Seq<Candlestick> {
    if h.len() < HISTORY_CAP {
        h.push(c)
    } else {
        h.subrange(1, h.len() as int).push(c)
    }
}

/// The history left by a whole stream of finalized candles: the eviction
/// rule folded over them in order, starting from an empty history.  Each
/// rollover of `ingest` applies `spec_push_evict` once, so this is what
/// the aggregator's history looks like after any run.
pub open spec fn spec_fold_push_evict(cs: Seq<Candlestick>) -> Seq<Candlestick>
    decreases cs.len(),
{
    if cs.len() == 0 {
        Seq::empty()
    } else {
        spec_push_evict(spec_fold_push_evict(cs.drop_last()), cs.last())
    }
}

/// The eviction law in general: however many candles a run finalizes, the
/// history holds exactly the most recent `HISTORY_CAP` of them, in order.
/// In particular sixty-one rollovers leave sixty candles, and the first
/// candle is no longer among them.
pub proof fn lemma_history_window(cs: Seq<Candlestick>)
    ensures
        spec_fold_push_evict(cs) == (if cs.len() <= HISTORY_CAP {
            cs
        } else {
            cs.subrange(cs.len() - HISTORY_CAP, cs.len() as int)
        }),
    decreases cs.len(),
{
    if cs.len() == 0 {
        assert(spec_fold_push_evict(cs) =~= cs);
    } else {
        let pre = cs.drop_last();
        lemma_history_window(pre);
        if pre.len() < HISTORY_CAP {
            assert(spec_fold_push_evict(cs) =~= cs);
        } else {
            assert(spec_fold_push_evict(cs) =~= cs.subrange(
                cs.len() - HISTORY_CAP,
                cs.len() as int,
            ));
        }
    }
}

/// Converts the live tick stream into candles: one in-progress candle at a
/// time, finalized into a bounded history when a tick opens a new bucket.
pub struct CandleAggregator {
    /// Bucket width in seconds; always positive.
    pub interval_secs: u64,
    /// The in-progress candle, if any tick arrived since the last rollover.
    pub current: Option<Candlestick>,
    /// Finalized candles, oldest first; at most `HISTORY_CAP` of them.
    pub history: Vec<Candlestick>,
}

impl CandleAggregator {
    pub open spec fn wf(self) -> bool {
        &&& self.interval_secs > 0
        &&& self.history@.len() <= HISTORY_CAP
        &&& forall|i: int| 0 <= i < self.history@.len() ==> (#[trigger] self.history@[i]).wf()
        &&& match self.current {
            Some(c) => c.wf() && c.bucket_start % self.interval_secs == 0,
            None => true,
        }
    }

    /// Whether absorbing this tick stays within the integer ranges: only
    /// a tick that lands in the in-progress candle's own bucket adds to
    /// its running totals.
    pub open spec fn spec_can_absorb(self, volume: u64, timestamp: u64) -> bool {
        match self.current {
            Some(c) => c.bucket_start == spec_bucket(timestamp, self.interval_secs)
                ==> c.volume + volume <= u64::MAX && c.trade_count + 1 <= u32::MAX,
            None => true,
        }
    }

    /// Exactly what one tick does to the aggregator.
    pub open spec fn spec_ingest_post(
        pre: CandleAggregator,
        price: u64,
        volume: u64,
        timestamp: u64,
        post: CandleAggregator,
    ) -> bool {
        let key = spec_bucket(timestamp, pre.interval_secs);
        &&& post.interval_secs == pre.interval_secs
        &&& match pre.current {
            None => {
                &&& post.current == Some(spec_start_candle(price, volume, key))
                &&& post.history@ == pre.history@
            },
            Some(c) => {
                if c.bucket_start == key {
                    &&& post.current == Some(spec_absorb(c, price, volume))
                    &&& post.history@ == pre.history@
                } else {
                    &&& post.current == Some(spec_start_candle(price, volume, key))
                    &&& post.history@ == spec_push_evict(pre.history@, c)
                }
            },
        }
    }

    pub fn new(interval: CandleInterval) -> (r: Self)
        ensures
            r.wf(),
            r.interval_secs == interval.spec_secs(),
            r.current is None,
            r.history@.len() == 0,
    {
        CandleAggregator {
            interval_secs: interval.to_secs(),
            current: None,
            history: Vec::new(),
        }
    }

    /// Decides whether `ingest` may take this tick: false only when the
    /// in-progress candle's running totals would overflow on it.
    pub fn can_ingest(&self, volume: u64, timestamp: u64) -> (r: bool)
        requires
            self.wf(),
        ensures
            r == self.spec_can_absorb(volume, timestamp),
    {
        proof {
            lemma_bucket_fits(timestamp, self.interval_secs);
        }
        let key = (timestamp / self.interval_secs) * self.interval_secs;
        match self.current {
            Some(c) => {
                if c.bucket_start == key {
                    volume <= u64::MAX - c.volume && c.trade_count < u32::MAX
                } else {
                    true
                }
            },
            None => true,
        }
    }

    /// Feeds one tick.  A tick of the in-progress candle's bucket updates
    /// it in place; a tick of any other bucket finalizes the in-progress
    /// candle into the history first.  A tick earlier than the current
    /// bucket is treated like any other tick of its own bucket key, so an
    /// out-of-order stream can re-open a past bucket; the upstream feed is
    /// assumed in-order.
    pub fn ingest(&mut self, price: u64, volume: u64, timestamp: u64)
        requires
            old(self).wf(),
            old(self).spec_can_absorb(volume, timestamp),
        ensures
            final(self).wf(),
            Self::spec_ingest_post(*old(self), price, volume, timestamp, *final(self)),
    {
        proof {
            lemma_bucket_fits(timestamp, self.interval_secs);
        }
        let key = (timestamp / self.interval_secs) * self.interval_secs;
        match self.current {
            None => {
                self.current = Some(Self::start_candle(price, volume, key));
            },
            Some(c) => {
                if c.bucket_start == key {
                    self.current = Some(Candlestick {
                        high: if price > c.high { price } else { c.high },
                        low: if price < c.low { price } else { c.low },
                        close: price,
                        volume: c.volume + volume,
                        trade_count: c.trade_count + 1,
                        ..c
                    });
                } else {
                    self.finalize_into_history(c);
                    self.current = Some(Self::start_candle(price, volume, key));
                }
            },
        }
    }

    /// Finalizes the in-progress candle, if any, and switches to the new
    /// bucket width.  The candle cut short by the switch is closed under
    /// the old width — a one-time boundary artifact; history is never
    /// re-bucketed.
    pub fn set_interval(&mut self, interval: CandleInterval)
        requires
            old(self).wf(),
        ensures
            final(self).wf(),
            final(self).interval_secs == interval.spec_secs(),
            final(self).current is None,
            final(self).history@ == (match old(self).current {
                Some(c) => spec_push_evict(old(self).history@, c),
                None => old(self).history@,
            }),
    {
        match self.current {
            Some(c) => {
                self.finalize_into_history(c);
                self.current = None;
            },
            None => {},
        }
        self.interval_secs = interval.to_secs();
    }

    fn start_candle(price: u64, volume: u64, bucket: u64) -> (r: Candlestick)
        ensures
            r == spec_start_candle(price, volume, bucket),
    {
        Candlestick {
            open: price,
            high: price,
            low: price,
            close: price,
            volume,
            bucket_start: bucket,
            trade_count: 1,
        }
    }

    fn finalize_into_history(&mut self, c: Candlestick)
        requires
            old(self).history@.len() <= HISTORY_CAP,
        ensures
            final(self).history@ == spec_push_evict(old(self).history@, c),
            final(self).history@.len() <= HISTORY_CAP,
            final(self).current == old(self).current,
            final(self).interval_secs == old(self).interval_secs,
    {
        self.history.push(c);
        if self.history.len() > HISTORY_CAP {
            self.history.remove(0);
            proof {
                assert(self.history@
                    =~= old(self).history@.subrange(1, old(self).history@.len() as int).push(c));
            }
        }
    }
}

/// A bucket rollover: of two ticks a full interval or more apart, fed to
/// an empty aggregator, the first opens a candle, and the second finalizes
/// it into the history — where it then stands last — before its own
/// candle becomes current.
pub proof fn lemma_bucket_rollover(
    pre: CandleAggregator,
    mid: CandleAggregator,
    post: CandleAggregator,
    price1: u64,
    vol1: u64,
    t1: u64,
    price2: u64,
    vol2: u64,
    t2: u64,
)
    requires
        pre.wf(),
        pre.current is None,
        CandleAggregator::spec_ingest_post(pre, price1, vol1, t1, mid),
        CandleAggregator::spec_ingest_post(mid, price2, vol2, t2, post),
        t1 as int + pre.interval_secs as int <= t2 as int,
        pre.interval_secs > 0,
    ensures
        mid.current == Some(
            spec_start_candle(price1, vol1, spec_bucket(t1, pre.interval_secs)),
        ),
        post.current == Some(
            spec_start_candle(price2, vol2, spec_bucket(t2, pre.interval_secs)),
        ),
        post.history@.len() >= 1,
        post.history@.last() == spec_start_candle(
            price1,
            vol1,
            spec_bucket(t1, pre.interval_secs),
        ),
{
    lemma_distinct_buckets(t1, t2, pre.interval_secs);
}

/// Two ticks a full interval or more apart never share a bucket: the later
/// one always rolls the candle over.
pub proof fn lemma_distinct_buckets(t1: u64, t2: u64, interval: u64)
    requires
        interval > 0,
        t1 as int + interval as int <= t2 as int,
    ensures
        spec_bucket(t2, interval) > spec_bucket(t1, interval),
{
    lemma_bucket_fits(t1, interval);
    lemma_bucket_fits(t2, interval);
    let i = interval as int;
    let q1 = t1 as int / i;
    let q2 = t2 as int / i;
    assert((q1 + 1) * i == q1 * i + i) by (nonlinear_arith);
    assert(q1 * i + i <= t2 as int);
    assert(((q1 + 1) * i) / i == q1 + 1) by {
        lemma_div_multiples_vanish(q1 + 1, i);
        assert(i * (q1 + 1) == (q1 + 1) * i) by (nonlinear_arith);
    };
    assert(q2 >= q1 + 1) by {
        lemma_div_is_ordered((q1 + 1) * i, t2 as int, i);
    };
    assert(q2 * i >= (q1 + 1) * i) by (nonlinear_arith)
        requires
            q2 >= q1 + 1,
            i > 0,
    ;
}

} // verus!
