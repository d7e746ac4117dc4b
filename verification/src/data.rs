use vstd::prelude::*;

verus! {

/// Largest magnitude (in price units) that the chart accepts for any price,
/// volume or interval. Keeping every data value inside this window lets all
/// intermediate arithmetic in the renderer stay inside `i64`/`i128`.
pub const PRICE_LIMIT: i64 = 1_000_000_000_000;

/// One price bar: open, high, low, close, and optional volume information.
///
/// All prices are integers in caller-chosen fixed-point units (for example
/// cents); the renderer never interprets the unit, it only maps values to
/// pixels with one consistent integer rounding policy.
#[derive(Clone, Copy, Debug, Hash)]
pub struct OHLC {
    /// Opening price of the bar.
    pub o: i64,
    /// Highest price of the bar.
    pub h: i64,
    /// Lowest price of the bar.
    pub l: i64,
    /// Closing price of the bar.
    pub c: i64,
    /// Buy-side volume, if the feed distinguishes buys from sells.
    pub bv: Option<i64>,
    /// Total traded volume of the bar.
    pub v: i64,
}

/// Access to the fields every candle-shaped record offers the renderer.
pub trait Candle {
    spec fn open_spec(&self) -> i64;

    spec fn high_spec(&self) -> i64;

    spec fn low_spec(&self) -> i64;

    spec fn close_spec(&self) -> i64;

    spec fn buy_volume_spec(&self) -> Option<i64>;

    spec fn total_volume_spec(&self) -> i64;

    fn open(&self) -> (r: i64)
        ensures
            r == self.open_spec(),
    ;

    fn high(&self) -> (r: i64)
        ensures
            r == self.high_spec(),
    ;

    fn low(&self) -> (r: i64)
        ensures
            r == self.low_spec(),
    ;

    fn close(&self) -> (r: i64)
        ensures
            r == self.close_spec(),
    ;

    fn buy_volume(&self) -> (r: Option<i64>)
        ensures
            r == self.buy_volume_spec(),
    ;

    fn total_volume(&self) -> (r: i64)
        ensures
            r == self.total_volume_spec(),
    ;

    /// Sell-side volume: whatever of the total is not buy-side. `None` when
    /// the record does not split volume by side or the difference would not
    /// fit in `i64`.
    fn sell_volume(&self) -> (r: Option<i64>)
        ensures
            r == (match self.buy_volume_spec() {
                Some(b) => if i64::MIN <= self.total_volume_spec() - b
                    && self.total_volume_spec() - b <= i64::MAX {
                    Some((self.total_volume_spec() - b) as i64)
                } else {
                    None
                },
                None => None::<i64>,
            }),
    ;
}

impl Candle for OHLC {
    open spec fn open_spec(&self) -> i64 {
        self.o
    }

    open spec fn high_spec(&self) -> i64 {
        self.h
    }

    open spec fn low_spec(&self) -> i64 {
        self.l
    }

    open spec fn close_spec(&self) -> i64 {
        self.c
    }

    open spec fn buy_volume_spec(&self) -> Option<i64> {
        self.bv
    }

    open spec fn total_volume_spec(&self) -> i64 {
        self.v
    }

    fn open(&self) -> (r: i64) {
        self.o
    }

    fn high(&self) -> (r: i64) {
        proof {
            // name the spec value so the solver unfolds it here
            assert(self.high_spec() == self.h);
        }
        self.h
    }

    fn low(&self) -> (r: i64) {
        proof {
            // name the spec value so the solver unfolds it here
            assert(self.low_spec() == self.l);
        }
        self.l
    }

    fn close(&self) -> (r: i64) {
        self.c
    }

    fn buy_volume(&self) -> (r: Option<i64>) {
        self.bv
    }

    fn total_volume(&self) -> (r: i64) {
        self.v
    }

    fn sell_volume(&self) -> (r: Option<i64>) {
        match self.bv {
            Some(b) => match self.v.checked_sub(b) {
                Some(d) => Some(d),
                None => None,
            },
            None => None,
        }
    }
}

impl OHLC {
    /// A zeroed bar: every price zero, no volume.
    pub fn new() -> (r: OHLC)
        ensures
            r.o == 0 && r.h == 0 && r.l == 0 && r.c == 0,
            r.bv is None,
            r.v == 0,
    {
        OHLC { o: 0, h: 0, l: 0, c: 0, bv: None, v: 0 }
    }

    /// Height of the bar: distance between high and low.
    pub fn range(&self) -> (r: i64)
        requires
            in_price_range(*self),
        ensures
            r == abs_spec(self.h - self.l),
    {
        let d = if self.h >= self.l {
            self.h - self.l
        } else {
            self.l - self.h
        };
        d
    }
}

/// Magnitude of a difference of two in-range prices.
pub open spec fn abs_spec(x: int) -> int {
    if x >= 0 {
        x
    } else {
        -x
    }
}

/// Every price and volume of the bar lies inside the supported window.
pub open spec fn in_price_range(c: OHLC) -> bool {
    &&& -PRICE_LIMIT <= c.o <= PRICE_LIMIT
    &&& -PRICE_LIMIT <= c.h <= PRICE_LIMIT
    &&& -PRICE_LIMIT <= c.l <= PRICE_LIMIT
    &&& -PRICE_LIMIT <= c.c <= PRICE_LIMIT
    &&& 0 <= c.v <= PRICE_LIMIT
    &&& (c.bv matches Some(b) ==> 0 <= b <= PRICE_LIMIT)
}

/// Every bar of the series lies inside the supported window.
pub open spec fn candles_in_range(s: Seq<OHLC>) -> bool {
    forall|i: int| 0 <= i < s.len() ==> in_price_range(#[trigger] s[i])
}

} // verus!
