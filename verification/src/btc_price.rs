//! History of BTC price points for a moving average.  A point is a price
//! and the instant it was seen, in milliseconds since the Unix epoch.  The
//! history keeps the points of the averaging window plus seven days, and at
//! most a fixed number of points; the averaging itself is done by the caller
//! on the prices that `recent_prices` hands out.
use std::collections::VecDeque;
use vstd::prelude::*;

verus! {

/// Milliseconds in a day.
pub const PRICE_MILLIS_PER_DAY: i64 = 86_400_000;

/// Most price points kept.
pub const MAX_PRICE_POINTS: usize = 1000;

/// Days kept beyond the averaging window.
pub const EXTRA_DAYS_KEPT: i64 = 7;

/// The points left once the leading points older than `cutoff` are dropped.
pub open spec fn drop_stale<P>(s: Seq<(i64, P)>, cutoff: int) -> Seq<(i64, P)>
    decreases s.len(),
{
    if s.len() > 0 && s[0].0 < cutoff {
        drop_stale(s.drop_first(), cutoff)
    } else {
        s
    }
}

/// The last `max` points (all of them when there are fewer).
pub open spec fn keep_last<P>(s: Seq<(i64, P)>, max: int) -> Seq<(i64, P)> {
    if s.len() > max {
        s.skip(s.len() - max)
    } else {
        s
    }
}

/// The prices of the points seen at or after `cutoff`, in order.
pub open spec fn prices_since<P>(s: Seq<(i64, P)>, cutoff: int) -> Seq<P>
    decreases s.len(),
{
    if s.len() == 0 {
        Seq::empty()
    } else {
        let rest = prices_since(s.drop_last(), cutoff);
        if s.last().0 >= cutoff {
            rest.push(s.last().1)
        } else {
            rest
        }
    }
}

/// The start of a window of `days` days ending at `now_ms`.
pub open spec fn window_start(now_ms: int, days: int) -> int {
    now_ms - days * PRICE_MILLIS_PER_DAY
}

/// Whether the start of the window and of the kept span are instants that
/// an `i64` of milliseconds can hold.
pub open spec fn window_fits(now_ms: int, window_days: u32) -> bool {
    i64::MIN <= window_start(now_ms, window_days + EXTRA_DAYS_KEPT)
}

proof fn lemma_drop_stale_fresh_last<P>(s: Seq<(i64, P)>, x: (i64, P), cutoff: int)
    requires
        x.0 >= cutoff,
    ensures
        drop_stale(s.push(x), cutoff).len() > 0,
        drop_stale(s.push(x), cutoff).last() == x,
    decreases s.len(),
{
    if s.len() > 0 && s[0].0 < cutoff {
        assert(s.push(x)[0] == s[0]);
        assert(s.push(x).drop_first() =~= s.drop_first().push(x));
        lemma_drop_stale_fresh_last(s.drop_first(), x, cutoff);
    } else if s.len() == 0 {
        assert(s.push(x)[0] == x);
    } else {
        assert(s.push(x)[0] == s[0]);
    }
}

/// A price seen within the kept span is the latest price once added, when
/// the history keeps any points at all.
pub proof fn lemma_fresh_price_is_latest<P>(
    s: Seq<(i64, P)>,
    price: P,
    timestamp_ms: i64,
    now_ms: int,
    window_days: u32,
    capacity: int,
)
    requires
        timestamp_ms >= window_start(now_ms, window_days + EXTRA_DAYS_KEPT),
        capacity > 0,
    ensures
        ({
            let kept = keep_last(
                drop_stale(s.push((timestamp_ms, price)), window_start(now_ms, window_days + EXTRA_DAYS_KEPT)),
                capacity,
            );
            kept.len() > 0 && kept.last() == (timestamp_ms, price)
        }),
{
    let cutoff = window_start(now_ms, window_days + EXTRA_DAYS_KEPT);
    let t = drop_stale(s.push((timestamp_ms, price)), cutoff);
    lemma_drop_stale_fresh_last(s, (timestamp_ms, price), cutoff);
    if t.len() > capacity {
        assert(t.skip(t.len() - capacity).last() == t.last());
    }
}

/// Price history with a moving average window of `ma_window_days` days.
pub struct BtcPriceService<P> {
    prices: VecDeque<(i64, P)>,
    ma_window_days: u32,
    max_price_points: usize,
}

impl<P> View for BtcPriceService<P> {
    type V = Seq<(i64, P)>;

    /// The kept points, oldest first.
    closed spec fn view(&self) -> Seq<(i64, P)> {
        self.prices@
    }
}

impl<P: Copy> BtcPriceService<P> {
    /// The length of the averaging window in days.
    pub closed spec fn window_days(&self) -> u32 {
        self.ma_window_days
    }

    /// The most points the history keeps.
    pub closed spec fn capacity(&self) -> int {
        self.max_price_points as int
    }

    /// An empty history with the given averaging window, keeping at most
    /// 1000 points.
    pub fn new(ma_window_days: u32) -> (res: Self)
        ensures
            res@ == Seq::<(i64, P)>::empty(),
            res.window_days() == ma_window_days,
            res.capacity() == MAX_PRICE_POINTS,
    {
        BtcPriceService { prices: VecDeque::new(), ma_window_days, max_price_points: MAX_PRICE_POINTS }
    }

    /// Adds a price seen at `timestamp_ms`, then drops the leading points
    /// older than the window plus seven days before `now_ms`, then the oldest
    /// points beyond the capacity.
    pub fn add_price(&mut self, price_usd: P, timestamp_ms: i64, now_ms: i64)
        requires
            window_fits(now_ms as int, old(self).window_days()),
        ensures
            final(self)@ == keep_last(
                drop_stale(
                    old(self)@.push((timestamp_ms, price_usd)),
                    window_start(now_ms as int, old(self).window_days() + EXTRA_DAYS_KEPT),
                ),
                old(self).capacity(),
            ),
            final(self)@.len() <= final(self).capacity(),
            final(self).window_days() == old(self).window_days(),
            final(self).capacity() == old(self).capacity(),
    {
        self.prices.push_back((timestamp_ms, price_usd));
        let days: i64 = self.ma_window_days as i64 + EXTRA_DAYS_KEPT;
        let cutoff: i64 = now_ms - days * PRICE_MILLIS_PER_DAY;
        let ghost pushed = self.prices@;
        while self.prices.len() > 0 && self.prices[0].0 < cutoff
            invariant
                drop_stale(self.prices@, cutoff as int) == drop_stale(pushed, cutoff as int),
                self.ma_window_days == old(self).ma_window_days,
                self.max_price_points == old(self).max_price_points,
            decreases self.prices@.len(),
        {
            let ghost before = self.prices@;
            self.prices.pop_front();
            assert(self.prices@ =~= before.drop_first());
        }
        let ghost trimmed = self.prices@;
        while self.prices.len() > self.max_price_points
            invariant
                trimmed.len() > self.max_price_points ==> self.prices@.len() >= self.max_price_points,
                trimmed.len() <= self.max_price_points ==> self.prices@ == trimmed,
                self.prices@.len() <= trimmed.len(),
                self.prices@ == trimmed.skip(trimmed.len() - self.prices@.len()),
                self.ma_window_days == old(self).ma_window_days,
                self.max_price_points == old(self).max_price_points,
            decreases self.prices@.len(),
        {
            self.prices.pop_front();
            assert(self.prices@ =~= trimmed.skip(trimmed.len() - self.prices@.len()));
        }
        proof {
            if trimmed.len() > self.max_price_points {
                assert(self.prices@.len() == self.max_price_points);
            }
        }
    }

    /// The prices seen within the averaging window before `now_ms`, oldest
    /// first.
    pub fn recent_prices(&self, now_ms: i64) -> (res: Vec<P>)
        requires
            window_fits(now_ms as int, self.window_days()),
        ensures
            res@ == prices_since(self@, window_start(now_ms as int, self.window_days() as int)),
    {
        let days: i64 = self.ma_window_days as i64;
        let cutoff: i64 = now_ms - days * PRICE_MILLIS_PER_DAY;
        let mut out: Vec<P> = Vec::new();
        let mut i: usize = 0;
        while i < self.prices.len()
            invariant
                i <= self.prices@.len(),
                out@ == prices_since(self.prices@.take(i as int), cutoff as int),
            decreases self.prices@.len() - i,
        {
            let point = self.prices[i];
            proof {
                assert(self.prices@.take(i as int + 1).drop_last() =~= self.prices@.take(i as int));
            }
            if point.0 >= cutoff {
                out.push(point.1);
            }
            i = i + 1;
        }
        proof {
            assert(self.prices@.take(i as int) =~= self.prices@);
        }
        out
    }

    /// The length of the averaging window in days.
    pub fn ma_window_days(&self) -> (res: u32)
        ensures
            res == self.window_days(),
    {
        self.ma_window_days
    }

    /// The most recently added price, if any.
    pub fn get_latest_price(&self) -> (res: Option<P>)
        ensures
            res == (if self@.len() == 0 { None } else { Some(self@.last().1) }),
    {
        let n = self.prices.len();
        if n == 0 {
            None
        } else {
            Some(self.prices[n - 1].1)
        }
    }

    /// The number of points seen within the averaging window before `now_ms`.
    pub fn price_point_count(&self, now_ms: i64) -> (res: usize)
        requires
            window_fits(now_ms as int, self.window_days()),
        ensures
            res == prices_since(self@, window_start(now_ms as int, self.window_days() as int)).len(),
    {
        let recent = self.recent_prices(now_ms);
        recent.len()
    }
}

} // verus!
