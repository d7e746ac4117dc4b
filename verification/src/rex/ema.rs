use vstd::prelude::*;
use vstd::string::StringExecFns;

use crate::buffer::view_point;
use crate::buffer::ChartBuffer;
use crate::buffer::ChartView;
use crate::data::Candle;
use crate::data::OHLC;
use crate::data::PRICE_LIMIT;
use crate::painting::ops_bytes;
use crate::painting::op_ok;
use crate::painting::PaintOp;
use crate::rex::RendererExtension;
use crate::utils::spec_decimal;
use crate::utils::u64_to_string;

verus! {

/// Largest magnitude an input to the moving-average family may have: wide
/// enough for any price, any candle median, and any difference of two
/// moving averages of such values.
pub const EMA_VALUE_LIMIT: i64 = 4_000_000_000_000;

/// Largest window length the moving-average family accepts.
pub const MAX_PERIODS: usize = 1_000_000_000;

/// The weight of a sample `e` steps before the reference point, in units
/// of 2^32: one at distance zero, multiplied by the remainder after
/// smoothing, `(den - num) / den`, for each further step, rounded down at
/// every step.
pub open spec fn spec_ema_weight(num: int, den: int, e: int) -> int
    decreases e,
{
    if e <= 0 {
        0x1_0000_0000
    } else {
        (spec_ema_weight(num, den, e - 1) * (den - num)) / den
    }
}

/// The weighted sum of `data[lo ..= p]`, each sample weighted by its
/// distance from `p`.
pub open spec fn spec_weighted_sum(data: Seq<i64>, lo: int, p: int, num: int, den: int) -> int
    decreases p + 1 - lo,
{
    if lo > p || lo < 0 {
        0
    } else {
        data[lo] * spec_ema_weight(num, den, p + 1 - lo) + spec_weighted_sum(
            data,
            lo + 1,
            p,
            num,
            den,
        )
    }
}

/// The sum of the weights of `data[lo ..= p]`.
pub open spec fn spec_weight_sum(lo: int, p: int, num: int, den: int) -> int
    decreases p + 1 - lo,
{
    if lo > p || lo < 0 {
        0
    } else {
        spec_ema_weight(num, den, p + 1 - lo) + spec_weight_sum(lo + 1, p, num, den)
    }
}

/// The first index of the trailing window that ends at `p`: at most
/// `periods` samples back, clamped at the start of the series.
pub open spec fn ema_window_start(periods: int, p: int) -> int {
    if p > periods {
        p - periods
    } else {
        0
    }
}

/// The exponential moving average at index `p`: the weighted average of the
/// trailing window, rounded towards minus infinity.
pub open spec fn spec_ema_at(data: Seq<i64>, periods: int, num: int, den: int, p: int) -> int {
    let lo = ema_window_start(periods, p);
    spec_weighted_sum(data, lo, p, num, den) / spec_weight_sum(lo, p, num, den)
}

/// Every weight lies between zero and the fixed-point one.
pub proof fn lemma_weight_bounds(num: int, den: int, e: int)
    requires
        0 < num < den,
    ensures
        0 <= spec_ema_weight(num, den, e) <= 0x1_0000_0000,
    decreases e,
{
    if e > 0 {
        lemma_weight_bounds(num, den, e - 1);
        let w = spec_ema_weight(num, den, e - 1);
        let a = den - num;
        assert(0 <= w * a <= w * den) by (nonlinear_arith)
            requires
                0 <= w,
                0 < a < den,
        ;
        vstd::arithmetic::div_mod::lemma_div_pos_is_pos(w * a, den);
        vstd::arithmetic::div_mod::lemma_div_is_ordered(w * a, w * den, den);
        vstd::arithmetic::div_mod::lemma_div_multiples_vanish(w, den);
        assert(w * den == den * w) by (nonlinear_arith);
    }
}

/// The weight one step back is still at least one fixed-point unit.
pub proof fn lemma_weight_one_pos(num: int, den: int)
    requires
        0 < num < den <= 0xFFFF_FFFF,
    ensures
        spec_ema_weight(num, den, 1) >= 1,
{
    let a = den - num;
    assert(spec_ema_weight(num, den, 0) == 0x1_0000_0000);
    assert(spec_ema_weight(num, den, 1) == (0x1_0000_0000 * a) / den);
    assert(0x1_0000_0000 * a >= den) by (nonlinear_arith)
        requires
            1 <= a,
            den <= 0xFFFF_FFFF,
    ;
    vstd::arithmetic::div_mod::lemma_div_is_ordered(den, 0x1_0000_0000 * a, den);
    vstd::arithmetic::div_mod::lemma_div_multiples_vanish(1, den);
    assert(den * 1 == den) by (nonlinear_arith);
}

/// A non-empty window's weights add up to at least one fixed-point unit,
/// and to at most one unit per sample.
pub proof fn lemma_weight_sum_bounds(lo: int, p: int, num: int, den: int)
    requires
        0 <= lo <= p,
        0 < num < den <= 0xFFFF_FFFF,
    ensures
        1 <= spec_weight_sum(lo, p, num, den) <= (p + 1 - lo) * 0x1_0000_0000,
    decreases p + 1 - lo,
{
    lemma_weight_bounds(num, den, p + 1 - lo);
    if lo == p {
        lemma_weight_one_pos(num, den);
        assert(spec_weight_sum(p + 1, p, num, den) == 0);
        assert(spec_weight_sum(p, p, num, den) == spec_ema_weight(num, den, 1));
    } else {
        lemma_weight_sum_bounds(lo + 1, p, num, den);
        assert((p + 1 - lo) * 0x1_0000_0000 == (p - lo) * 0x1_0000_0000 + 0x1_0000_0000)
            by (nonlinear_arith);
    }
}

/// A window whose samples all lie between two bounds has its weighted sum
/// between the bounds scaled by the weight total.
pub proof fn lemma_weighted_sum_bounds(
    data: Seq<i64>,
    lo: int,
    p: int,
    num: int,
    den: int,
    lob: int,
    hib: int,
)
    requires
        0 <= lo <= p < data.len(),
        0 < num < den <= 0xFFFF_FFFF,
        forall|j: int| lo <= j <= p ==> lob <= #[trigger] data[j] <= hib,
    ensures
        lob * spec_weight_sum(lo, p, num, den) <= spec_weighted_sum(data, lo, p, num, den) <= hib
            * spec_weight_sum(lo, p, num, den),
    decreases p + 1 - lo,
{
    let w = spec_ema_weight(num, den, p + 1 - lo);
    lemma_weight_bounds(num, den, p + 1 - lo);
    if lo == p {
        assert(lob * (w + 0) <= data[lo] * w <= hib * (w + 0)) by (nonlinear_arith)
            requires
                0 <= w,
                lob <= data[lo] <= hib,
        ;
        assert(spec_weight_sum(lo + 1, p, num, den) == 0);
        assert(spec_weighted_sum(data, lo + 1, p, num, den) == 0);
        assert(spec_weight_sum(lo, p, num, den) == w);
        assert(spec_weighted_sum(data, lo, p, num, den) == data[lo] * w);
    } else {
        lemma_weighted_sum_bounds(data, lo + 1, p, num, den, lob, hib);
        let ws = spec_weight_sum(lo + 1, p, num, den);
        let s = spec_weighted_sum(data, lo + 1, p, num, den);
        assert(lob * (w + ws) <= data[lo] * w + s <= hib * (w + ws)) by (nonlinear_arith)
            requires
                0 <= w,
                lob <= data[lo] <= hib,
                lob * ws <= s <= hib * ws,
        ;
    }
}

/// The moving average of a window lies between the window's bounds.
pub proof fn lemma_ema_at_bounds(
    data: Seq<i64>,
    periods: int,
    num: int,
    den: int,
    p: int,
    lob: int,
    hib: int,
)
    requires
        0 <= p < data.len(),
        0 <= periods,
        0 < num < den <= 0xFFFF_FFFF,
        forall|j: int| 0 <= j < data.len() ==> lob <= #[trigger] data[j] <= hib,
    ensures
        lob <= spec_ema_at(data, periods, num, den, p) <= hib,
{
    let lo = ema_window_start(periods, p);
    let ws = spec_weight_sum(lo, p, num, den);
    let s = spec_weighted_sum(data, lo, p, num, den);
    lemma_weight_sum_bounds(lo, p, num, den);
    lemma_weighted_sum_bounds(data, lo, p, num, den, lob, hib);
    vstd::arithmetic::div_mod::lemma_div_is_ordered(lob * ws, s, ws);
    vstd::arithmetic::div_mod::lemma_div_is_ordered(s, hib * ws, ws);
    vstd::arithmetic::div_mod::lemma_div_multiples_vanish(lob, ws);
    vstd::arithmetic::div_mod::lemma_div_multiples_vanish(hib, ws);
    assert(lob * ws == ws * lob && hib * ws == ws * hib) by (nonlinear_arith);
}

/// The moving average of a constant series is that constant, at every
/// index: the weighted average of a constant is the constant, whatever the
/// window and the smoothing factor.
pub proof fn lemma_ema_constant(
    data: Seq<i64>,
    periods: int,
    num: int,
    den: int,
    p: int,
    v: i64,
)
    requires
        0 <= p < data.len(),
        0 <= periods,
        0 < num < den <= 0xFFFF_FFFF,
        forall|j: int| 0 <= j < data.len() ==> #[trigger] data[j] == v,
    ensures
        spec_ema_at(data, periods, num, den, p) == v,
{
    lemma_ema_at_bounds(data, periods, num, den, p, v as int, v as int);
}

/// The median of every candle of a series, as a mathematical sequence.
pub open spec fn median_seq(data: Seq<OHLC>) -> Seq<i64> {
    Seq::new(data.len(), |i: int| (data[i].l + (data[i].h - data[i].l) / 2) as i64)
}

/// The exponential moving average of a series, as a mathematical sequence.
pub open spec fn ema_seq(vals: Seq<i64>, periods: int, num: int, den: int) -> Seq<i64> {
    Seq::new(vals.len(), |p: int| spec_ema_at(vals, periods, num, den, p) as i64)
}

/// The display list of a series polyline: one segment per index from `p`
/// on, each endpoint at its index's share of the time axis.
pub open spec fn series_ops(v: ChartView, vals: Seq<i64>, colour: u32, p: int) -> Seq<PaintOp>
    decreases vals.len() - p,
{
    if p < 0 || p + 1 >= vals.len() {
        Seq::empty()
    } else {
        seq![
            PaintOp::Line {
                a: view_point(v, vals[p] as int, p * v.timeframe / (vals.len() as int)),
                b: view_point(
                    v,
                    vals[p + 1] as int,
                    (p + 1) * v.timeframe / (vals.len() as int),
                ),
                rgba: colour,
            },
        ] + series_ops(v, vals, colour, p + 1)
    }
}

/// The pixel bytes an average-family polyline leaves behind.
pub open spec fn series_painted(v: ChartView, vals: Seq<i64>, colour: u32, start: int) -> Seq<
    u8,
> {
    ops_bytes(v.bytes, v.width, v.height, v.background, series_ops(v, vals, colour, start))
}

/// An exponential-moving-average overlay: a polyline of the weighted
/// average of the candle medians over a trailing window.
#[derive(Clone, Copy, Debug)]
pub struct EMA {
    /// Window length, in candles.
    pub periods: usize,
    /// Numerator of the smoothing factor.
    pub sf_num: u32,
    /// Denominator of the smoothing factor; the factor lies strictly
    /// between zero and one.
    pub sf_den: u32,
    /// Colour of the polyline.
    pub colour: u32,
}

impl EMA {
    /// A moving-average overlay with the given window, smoothing factor
    /// `sf_num / sf_den` (strictly between zero and one) and colour.
    pub fn new(periods: usize, sf_num: u32, sf_den: u32, colour: u32) -> (r: EMA)
        requires
            0 < sf_num < sf_den,
            periods <= MAX_PERIODS,
        ensures
            r.periods == periods,
            r.sf_num == sf_num,
            r.sf_den == sf_den,
            r.colour == colour,
            r.wf(),
    {
        EMA { periods, sf_num, sf_den, colour }
    }
}

impl RendererExtension for EMA {
    open spec fn wf(&self) -> bool {
        &&& 0 < self.sf_num < self.sf_den
        &&& self.periods <= MAX_PERIODS
    }

    open spec fn name_spec(&self) -> Seq<char> {
        "EMA("@ + spec_decimal(self.periods as int) + ", sf="@ + spec_decimal(
            self.sf_num as int,
        ) + "/"@ + spec_decimal(self.sf_den as int) + ")"@
    }

    open spec fn lore_colour_spec(&self) -> Option<u32> {
        Some(self.colour)
    }

    open spec fn painted(&self, pre: ChartView, data: Seq<OHLC>) -> Seq<u8> {
        series_painted(
            pre,
            ema_seq(median_seq(data), self.periods as int, self.sf_num as int, self.sf_den as int),
            self.colour,
            self.periods as int,
        )
    }

    fn apply(&self, buffer: &mut ChartBuffer, data: &[OHLC]) {
        let medians = median_list(data);
        let values = ema(self, medians.as_slice());
        proof {
            assert(medians@ =~= median_seq(data@));
            assert(values@ =~= ema_seq(
                median_seq(data@),
                self.periods as int,
                self.sf_num as int,
                self.sf_den as int,
            ));
        }
        draw_series(buffer, values.as_slice(), self.periods, self.colour);
    }

    fn name(&self) -> (r: String) {
        let mut s = String::from_str("EMA(");
        s.append(u64_to_string(self.periods as u64).as_str());
        s.append(", sf=");
        s.append(u64_to_string(self.sf_num as u64).as_str());
        s.append("/");
        s.append(u64_to_string(self.sf_den as u64).as_str());
        s.append(")");
        proof {
            assert(s@ =~= self.name_spec());
        }
        s
    }

    fn lore_colour(&self) -> (r: Option<u32>) {
        Some(self.colour)
    }
}

/// Draw a derived series as a polyline over the main plot, one segment per
/// index from `periods + 1` on, each point at its share of the time axis.
pub(crate) fn draw_series(buffer: &mut ChartBuffer, values: &[i64], periods: usize, colour: u32)
    requires
        old(buffer).wf(),
    ensures
        final(buffer).wf(),
        final(buffer).same_geometry(old(buffer)),
        final(buffer).raster.bytes() == series_painted(
            old(buffer).view(),
            values@,
            colour,
            periods as int,
        ),
{
    let ghost v = buffer.view();
    let len = values.len();
    let mut ops: Vec<PaintOp> = Vec::new();
    if len > 0 {
        let tf = buffer.timeframe as u64;
        let mut p: usize = periods;
        while p < len - 1
            invariant
                *buffer == *old(buffer),
                buffer.wf(),
                v == buffer.view(),
                0 < len == values@.len(),
                tf == buffer.timeframe as u64,
                periods <= p,
                forall|j: int| 0 <= j < ops@.len() ==> op_ok(#[trigger] ops@[j]),
                series_ops(v, values@, colour, periods as int) == ops@ + series_ops(
                    v,
                    values@,
                    colour,
                    p as int,
                ),
            decreases len - p,
        {
            proof {
                crate::painting::lemma_interp_bounds(p as int, tf as int, len as int);
                crate::painting::lemma_interp_bounds(p as int + 1, tf as int, len as int);
                assert((p as int) * (tf as int) < 0x100000000000000000000000000000000 && (
                p as int + 1) * (tf as int) < 0x100000000000000000000000000000000)
                    by (nonlinear_arith)
                    requires
                        0 <= p <= 0xFFFF_FFFF_FFFF_FFFF,
                        0 <= tf <= 0xFFFF_FFFF_FFFF_FFFF,
                ;
            }
            let t1 = (((p as u64) as u128 * tf as u128) / (len as u128)) as u64;
            let t2 = ((((p + 1) as u64) as u128 * tf as u128) / (len as u128)) as u64;
            let p1 = buffer.data_to_coords(values[p], t1 as i64);
            let p2 = buffer.data_to_coords(values[p + 1], t2 as i64);
            let op = PaintOp::Line { a: p1, b: p2, rgba: colour };
            proof {
                assert(series_ops(v, values@, colour, p as int) == seq![op] + series_ops(
                    v,
                    values@,
                    colour,
                    p as int + 1,
                ));
                assert(ops@.push(op) + series_ops(v, values@, colour, p as int + 1) =~= ops@ + (
                seq![op] + series_ops(v, values@, colour, p as int + 1)));
            }
            ops.push(op);
            p = p + 1;
        }
        proof {
            assert(series_ops(v, values@, colour, p as int) =~= Seq::<PaintOp>::empty());
            assert(ops@ + Seq::<PaintOp>::empty() =~= ops@);
        }
    } else {
        proof {
            assert(series_ops(v, values@, colour, periods as int) =~= Seq::<PaintOp>::empty());
        }
    }
    proof {
        assert(ops@ == series_ops(v, values@, colour, periods as int));
    }
    buffer.paint_ops(&ops);
}

/// The median price of one candle: halfway between its low and its high,
/// rounded towards the low.
pub fn median_of_ohlc(ohlc: &OHLC) -> (r: i64)
    requires
        crate::data::in_price_range(*ohlc),
    ensures
        r as int == ohlc.l + (ohlc.h - ohlc.l) / 2,
{
    let low = ohlc.low();
    let high = ohlc.high();
    if high >= low {
        let d = (high - low) as u64;
        low + ((d / 2) as i64)
    } else {
        let d = (low - high) as u64;
        let half = (d / 2) as i64;
        let odd = d % 2 == 1;
        proof {
            lemma_neg_half(high as int, low as int);
        }
        low - half - (if odd {
            1i64
        } else {
            0i64
        })
    }
}

/// Halving a negative difference, rounding towards minus infinity, equals
/// negating the rounded-up half of the positive difference.
proof fn lemma_neg_half(high: int, low: int)
    requires
        high < low,
    ensures
        (high - low) / 2 == -((low - high) / 2) - (if (low - high) % 2 == 1 {
            1int
        } else {
            0int
        }),
{
    let d = low - high;
    vstd::arithmetic::div_mod::lemma_fundamental_div_mod(d, 2);
    vstd::arithmetic::div_mod::lemma_mod_bound(d, 2);
    if d % 2 == 0 {
        vstd::arithmetic::div_mod::lemma_fundamental_div_mod_converse(-d, 2, -(d / 2), 0);
    } else {
        vstd::arithmetic::div_mod::lemma_fundamental_div_mod_converse(-d, 2, -(d / 2) - 1, 1);
    }
}

/// The median of every candle of the series, as `median_of_ohlc` states.
pub fn median_list(list: &[OHLC]) -> (r: Vec<i64>)
    requires
        crate::data::candles_in_range(list@),
    ensures
        r@.len() == list@.len(),
        forall|i: int|
            0 <= i < list@.len() ==> r@[i] as int == list@[i].l + (list@[i].h - list@[i].l) / 2,
        forall|i: int|
            0 <= i < r@.len() ==> -2 * PRICE_LIMIT as int <= #[trigger] r@[i] <= 2
                * PRICE_LIMIT as int,
{
    let mut buf: Vec<i64> = Vec::new();
    let n = list.len();
    let mut i: usize = 0;
    while i < n
        invariant
            0 <= i <= n,
            n == list@.len(),
            crate::data::candles_in_range(list@),
            buf@.len() == i,
            forall|j: int|
                0 <= j < i ==> buf@[j] as int == list@[j].l + (list@[j].h - list@[j].l) / 2,
            forall|j: int|
                0 <= j < i ==> -2 * PRICE_LIMIT as int <= #[trigger] buf@[j] <= 2
                    * PRICE_LIMIT as int,
        decreases n - i,
    {
        let m = median_of_ohlc(&list[i]);
        proof {
            assert(crate::data::in_price_range(list@[i as int]));
            lemma_median_in_range(list@[i as int]);
        }
        buf.push(m);
        i = i + 1;
    }
    buf
}

/// The median of an in-range candle is in range.
proof fn lemma_median_in_range(c: OHLC)
    requires
        crate::data::in_price_range(c),
    ensures
        -2 * PRICE_LIMIT as int <= c.l + (c.h - c.l) / 2 <= 2 * PRICE_LIMIT as int,
{
    let d = c.h - c.l;
    vstd::arithmetic::div_mod::lemma_fundamental_div_mod(d, 2);
    vstd::arithmetic::div_mod::lemma_mod_bound(d, 2);
    if d >= 0 {
        vstd::arithmetic::div_mod::lemma_div_is_ordered(0, d, 2);
        vstd::arithmetic::div_mod::lemma_div_is_ordered(d, 2 * PRICE_LIMIT as int, 2);
    } else {
        vstd::arithmetic::div_mod::lemma_div_is_ordered(-(2 * PRICE_LIMIT as int), d, 2);
        vstd::arithmetic::div_mod::lemma_div_is_ordered(d, 0, 2);
    }
}

/// Floor division on wide integers: the quotient rounded towards minus
/// infinity.
fn floor_div_i128(n: i128, d: i128) -> (r: i128)
    requires
        0 < d <= 0x1_0000_0000_0000_0000_0000_0000,
        -0x1_0000_0000_0000_0000_0000_0000_0000 <= n <= 0x1_0000_0000_0000_0000_0000_0000_0000,
    ensures
        r as int == n as int / d as int,
{
    if n >= 0 {
        let q = (n as u128) / (d as u128);
        q as i128
    } else {
        let m = (-n) as u128;
        let du = d as u128;
        let q = m / du;
        let rem = m % du;
        proof {
            vstd::arithmetic::div_mod::lemma_fundamental_div_mod(m as int, du as int);
            vstd::arithmetic::div_mod::lemma_mod_bound(m as int, du as int);
            assert(m == du * (q as int) + rem);
            assert(n == -(m as int));
            assert(-((du as int) * (q as int) + rem) == (-(q as int)) * (du as int) + 0 - rem)
                by (nonlinear_arith);
            assert(-((du as int) * (q as int) + rem) == (-(q as int) - 1) * (du as int) + (du
                - rem)) by (nonlinear_arith);
            if rem == 0 {
                vstd::arithmetic::div_mod::lemma_fundamental_div_mod_converse(
                    n as int,
                    d as int,
                    -(q as int),
                    0,
                );
            } else {
                vstd::arithmetic::div_mod::lemma_fundamental_div_mod_converse(
                    n as int,
                    d as int,
                    -(q as int) - 1,
                    d - rem,
                );
            }
        }
        if rem == 0 {
            -(q as i128)
        } else {
            -(q as i128) - 1
        }
    }
}

/// The exponential moving average of a series: at each index, the weighted
/// average of the trailing window of `config.periods` earlier samples (and
/// the sample itself), the weights falling off geometrically with the
/// smoothing factor; windows near the start are simply shorter. Every
/// average lies between the smallest and largest sample of its window.
pub fn ema(config: &EMA, data: &[i64]) -> (r: Vec<i64>)
    requires
        config.wf(),
        forall|j: int|
            0 <= j < data@.len() ==> -EMA_VALUE_LIMIT <= #[trigger] data@[j] <= EMA_VALUE_LIMIT,
    ensures
        r@.len() == data@.len(),
        forall|p: int|
            0 <= p < r@.len() ==> #[trigger] r@[p] as int == spec_ema_at(
                data@,
                config.periods as int,
                config.sf_num as int,
                config.sf_den as int,
                p,
            ),
        forall|p: int| 0 <= p < r@.len() ==> -EMA_VALUE_LIMIT <= #[trigger] r@[p] <= EMA_VALUE_LIMIT,
{
    let num = config.sf_num;
    let den = config.sf_den;
    let a = den - num;
    let periods = config.periods;
    let ghost numg = num as int;
    let ghost deng = den as int;
    let n = data.len();
    let mut out: Vec<i64> = Vec::new();
    let mut p: usize = 0;
    while p < n
        invariant
            config.wf(),
            num == config.sf_num,
            den == config.sf_den,
            a == den - num,
            periods == config.periods,
            numg == num as int,
            deng == den as int,
            n == data@.len(),
            forall|j: int|
                0 <= j < data@.len() ==> -EMA_VALUE_LIMIT <= #[trigger] data@[j]
                    <= EMA_VALUE_LIMIT,
            0 <= p <= n,
            out@.len() == p,
            forall|q: int|
                0 <= q < p ==> #[trigger] out@[q] as int == spec_ema_at(
                    data@,
                    periods as int,
                    numg,
                    deng,
                    q,
                ),
            forall|q: int| 0 <= q < p ==> -EMA_VALUE_LIMIT <= #[trigger] out@[q] <= EMA_VALUE_LIMIT,
        decreases n - p,
    {
        let lo = if p > periods {
            p - periods
        } else {
            0
        };
        let window = p - lo;
        let mut w: u64 = ((0x1_0000_0000u64 as u128 * a as u128) / (den as u128)) as u64;
        proof {
            lemma_weight_bounds(numg, deng, 1);
            assert(spec_ema_weight(numg, deng, 0) == 0x1_0000_0000);
            assert(w as int == spec_ema_weight(numg, deng, 1));
        }
        let mut num_acc: i128 = 0;
        let mut den_acc: i128 = 0;
        let mut cnt: usize = 0;
        while cnt <= window
            invariant
                numg == num as int,
                deng == den as int,
                0 < numg < deng <= 0xFFFF_FFFF,
                a == den - num,
                n == data@.len(),
                0 <= lo <= p < n,
                window == p - lo,
                window <= MAX_PERIODS,
                forall|j: int|
                    0 <= j < data@.len() ==> -EMA_VALUE_LIMIT <= #[trigger] data@[j]
                        <= EMA_VALUE_LIMIT,
                0 <= cnt <= window + 1,
                w as int == spec_ema_weight(numg, deng, cnt as int + 1),
                0 <= w <= 0x1_0000_0000,
                num_acc as int == spec_weighted_sum(data@, p - cnt + 1, p as int, numg, deng),
                den_acc as int == spec_weight_sum(p - cnt + 1, p as int, numg, deng),
                -(cnt as int) * 0x4_0000_0000_0000_0000_0000 <= num_acc as int <= (cnt as int)
                    * 0x4_0000_0000_0000_0000_0000,
                0 <= den_acc as int <= (cnt as int) * 0x1_0000_0000,
            decreases window + 1 - cnt,
        {
            let i = p - cnt;
            proof {
                assert(-0x4_0000_0000_0000_0000_0000 <= (data@[i as int] as int) * (w as int)
                    <= 0x4_0000_0000_0000_0000_0000) by (nonlinear_arith)
                    requires
                        -EMA_VALUE_LIMIT <= data@[i as int] <= EMA_VALUE_LIMIT,
                        0 <= w <= 0x1_0000_0000,
                ;
                assert((cnt as int + 1) * 0x4_0000_0000_0000_0000_0000 == (cnt as int)
                    * 0x4_0000_0000_0000_0000_0000 + 0x4_0000_0000_0000_0000_0000)
                    by (nonlinear_arith);
                assert((cnt as int + 1) * 0x1_0000_0000 == (cnt as int) * 0x1_0000_0000
                    + 0x1_0000_0000) by (nonlinear_arith);
                assert(cnt as int <= MAX_PERIODS as int + 1);
            }
            let term = (data[i] as i128) * (w as i128);
            num_acc = num_acc + term;
            den_acc = den_acc + (w as i128);
            proof {
                lemma_weight_bounds(numg, deng, cnt as int + 2);
                assert(0 <= (w as int) * ((den - num) as int) <= 0x1_0000_0000 * 0x1_0000_0000)
                    by (nonlinear_arith)
                    requires
                        0 <= w <= 0x1_0000_0000,
                        0 <= den - num < 0x1_0000_0000,
                ;
            }
            w = ((w as u128 * a as u128) / (den as u128)) as u64;
            cnt = cnt + 1;
        }
        proof {
            lemma_weight_sum_bounds(lo as int, p as int, numg, deng);
            lemma_ema_at_bounds(
                data@,
                periods as int,
                numg,
                deng,
                p as int,
                -EMA_VALUE_LIMIT as int,
                EMA_VALUE_LIMIT as int,
            );
        }
        let q = floor_div_i128(num_acc, den_acc);
        out.push(q as i64);
        p = p + 1;
    }
    out
}

} // verus!
