use vstd::prelude::*;
use vstd::string::StringExecFns;

use crate::buffer::view_point;
use crate::buffer::ChartBuffer;
use crate::buffer::ChartView;
use crate::data::OHLC;
use crate::painting::op_ok;
use crate::painting::PaintOp;
use crate::rex::ema::median_list;
use crate::rex::ema::EMA_VALUE_LIMIT;
use crate::rex::ema::MAX_PERIODS;
use crate::rex::RendererExtension;
use crate::utils::spec_decimal;
use crate::utils::u64_to_string;

verus! {

/// One point of a Bollinger envelope: the moving average and the band
/// edges one scaled standard deviation above and below it.
#[derive(Clone, Copy, Debug)]
pub struct BandPoints {
    /// The upper band edge.
    pub higher: i64,
    /// The moving average itself.
    pub median: i64,
    /// The lower band edge.
    pub lower: i64,
}

/// The sum of `values[lo .. hi)`.
pub open spec fn spec_sum(values: Seq<i64>, lo: int, hi: int) -> int
    decreases hi - lo,
{
    if lo >= hi || lo < 0 {
        0
    } else {
        values[lo] + spec_sum(values, lo + 1, hi)
    }
}

/// The sum of squared deviations of `values[lo .. hi)` from `avg`.
pub open spec fn spec_sq_dev_sum(values: Seq<i64>, lo: int, hi: int, avg: int) -> int
    decreases hi - lo,
{
    if lo >= hi || lo < 0 {
        0
    } else {
        (avg - values[lo]) * (avg - values[lo]) + spec_sq_dev_sum(values, lo + 1, hi, avg)
    }
}

/// The rolling average of the window `[lo, hi)`, rounded towards minus
/// infinity.
pub open spec fn spec_window_avg(values: Seq<i64>, lo: int, hi: int) -> int {
    spec_sum(values, lo, hi) / (hi - lo)
}

/// The sample variance of the window `[lo, hi)`: squared deviations from
/// the rolling average, divided by one less than the window size.
pub open spec fn spec_window_var(values: Seq<i64>, lo: int, hi: int) -> int {
    spec_sq_dev_sum(values, lo, hi, spec_window_avg(values, lo, hi)) / (hi - lo - 1)
}

/// `s` is the integer square root of `v`.
pub open spec fn is_isqrt(s: int, v: int) -> bool {
    &&& 0 <= s
    &&& s * s <= v
    &&& v < (s + 1) * (s + 1)
}

/// The centred window of size `periods` around index `i`, clamped at the
/// edges of a series of length `len`: half the window before `i`, half
/// after, the end never reaching the last sample.
pub open spec fn band_window(periods: int, i: int, len: int) -> (int, int) {
    let half = periods / 2;
    let lo = if i > half {
        i - half
    } else {
        0
    };
    let hi = if i + half + 1 >= len {
        len - 1
    } else {
        i + half + 1
    };
    (lo, hi)
}

/// The integer square root of a non-negative value, as a function.
pub open spec fn spec_isqrt(v: int) -> int {
    choose|s: int| is_isqrt(s, v)
}

/// At most one integer is the square root of a value.
pub proof fn lemma_isqrt_unique(a: int, b: int, v: int)
    requires
        is_isqrt(a, v),
        is_isqrt(b, v),
    ensures
        a == b,
{
    if a < b {
        assert((a + 1) * (a + 1) <= b * b) by (nonlinear_arith)
            requires
                0 <= a,
                a + 1 <= b,
        ;
    }
    if b < a {
        assert((b + 1) * (b + 1) <= a * a) by (nonlinear_arith)
            requires
                0 <= b,
                b + 1 <= a,
        ;
    }
}

/// A witness pins the functional square root.
pub proof fn lemma_isqrt_of(s: int, v: int)
    requires
        is_isqrt(s, v),
    ensures
        spec_isqrt(v) == s,
{
    assert(is_isqrt(spec_isqrt(v), v));
    lemma_isqrt_unique(s, spec_isqrt(v), v);
}

/// The band point at index `i`: the median is the window average, and the
/// edges sit one scaled standard deviation (the integer square root of the
/// sample variance, times `k`) above and below it. Windows of fewer than
/// two samples have zero deviation, and an empty window gives a zeroed
/// point.
pub open spec fn spec_band_point(values: Seq<i64>, periods: int, k: int, i: int) -> BandPoints {
    let lohi = band_window(periods, i, values.len() as int);
    let lo = lohi.0;
    let hi = lohi.1;
    if hi <= lo {
        BandPoints { higher: 0, median: 0, lower: 0 }
    } else {
        let m = spec_window_avg(values, lo, hi);
        let s = if hi - lo < 2 {
            0
        } else {
            spec_isqrt(spec_window_var(values, lo, hi))
        };
        BandPoints { higher: (m + k * s) as i64, median: m as i64, lower: (m - k * s) as i64 }
    }
}

/// The band points of a whole series.
pub open spec fn band_seq(values: Seq<i64>, periods: int, k: int) -> Seq<BandPoints> {
    Seq::new(values.len(), |i: int| spec_band_point(values, periods, k, i))
}

/// The display list of the three band polylines from segment `i` on: at
/// each step one segment of the upper, middle and lower line, the points
/// centred in their time slots.
pub open spec fn band_ops(
    v: ChartView,
    bands: Seq<BandPoints>,
    n: int,
    colour: u32,
    i: int,
) -> Seq<PaintOp>
    decreases bands.len() - i,
{
    if i < 0 || i + 1 >= bands.len() {
        Seq::empty()
    } else {
        let t = i * v.timeframe / n + v.timeframe / (2 * n);
        let tn = (i + 1) * v.timeframe / n + v.timeframe / (2 * n);
        seq![
            PaintOp::Line {
                a: view_point(v, bands[i].higher as int, t),
                b: view_point(v, bands[i + 1].higher as int, tn),
                rgba: colour,
            },
            PaintOp::Line {
                a: view_point(v, bands[i].median as int, t),
                b: view_point(v, bands[i + 1].median as int, tn),
                rgba: colour,
            },
            PaintOp::Line {
                a: view_point(v, bands[i].lower as int, t),
                b: view_point(v, bands[i + 1].lower as int, tn),
                rgba: colour,
            },
        ] + band_ops(v, bands, n, colour, i + 1)
    }
}

/// The Bollinger band series of a median series: one point per index,
/// each equal to `spec_band_point`; at every point the lower edge never
/// exceeds the average and the average never exceeds the upper edge.
pub fn bollinger_points(values: &Vec<i64>, periods: usize, k: usize) -> (r: Vec<BandPoints>)
    requires
        periods <= MAX_PERIODS,
        k <= 100,
        forall|j: int|
            0 <= j < values@.len() ==> -EMA_VALUE_LIMIT <= #[trigger] values@[j]
                <= EMA_VALUE_LIMIT,
    ensures
        r@.len() == values@.len(),
        forall|i: int|
            0 <= i < r@.len() ==> #[trigger] r@[i] == spec_band_point(
                values@,
                periods as int,
                k as int,
                i,
            ),
        forall|i: int|
            0 <= i < r@.len() ==> #[trigger] r@[i].lower <= r@[i].median <= r@[i].higher,
{
    let n = values.len();
    let half = periods / 2;
    let mut bands: Vec<BandPoints> = Vec::new();
    let mut i: usize = 0;
    while i < n
        invariant
            n == values@.len(),
            half == periods as int / 2,
            periods <= MAX_PERIODS,
            k <= 100,
            forall|j: int|
                0 <= j < values@.len() ==> -EMA_VALUE_LIMIT <= #[trigger] values@[j]
                    <= EMA_VALUE_LIMIT,
            0 <= i <= n,
            bands@.len() == i,
            forall|j: int|
                0 <= j < i ==> #[trigger] bands@[j] == spec_band_point(
                    values@,
                    periods as int,
                    k as int,
                    j,
                ),
            forall|j: int|
                0 <= j < i ==> #[trigger] bands@[j].lower <= bands@[j].median
                    <= bands@[j].higher,
        decreases n - i,
    {
        let lo = if i > half {
            i - half
        } else {
            0
        };
        let hi_unclamped: u128 = i as u128 + half as u128 + 1;
        let hi = if hi_unclamped >= n as u128 {
            n - 1
        } else {
            i + half + 1
        };
        let pt = if hi <= lo {
            proof {
                assert(BandPoints { higher: 0, median: 0, lower: 0 } == spec_band_point(
                    values@,
                    periods as int,
                    k as int,
                    i as int,
                ));
            }
            BandPoints { higher: 0, median: 0, lower: 0 }
        } else {
            let avg = window_avg(values, lo, hi);
            proof {
                assert(hi - lo <= periods + 2);
            }
            let sd: i64 = if hi - lo >= 2 {
                window_std_dev(values, lo, hi)
            } else {
                0
            };
            proof {
                assert(0 <= (sd as int) * (k as int) <= 12_000_000_000_000i64
                    * 100) by (nonlinear_arith)
                    requires
                        0 <= sd <= 12_000_000_000_000i64,
                        0 <= k <= 100,
                ;
            }
            let scaled = sd * (k as i64);
            let pt = BandPoints { higher: avg + scaled, median: avg, lower: avg - scaled };
            proof {
                if hi - lo >= 2 {
                    lemma_isqrt_of(
                        sd as int,
                        spec_window_var(values@, lo as int, hi as int),
                    );
                }
                assert(0 <= (k as int) * (sd as int)) by (nonlinear_arith)
                    requires
                        0 <= k,
                        0 <= sd,
                ;
                assert((sd as int) * (k as int) == (k as int) * (sd as int)) by (nonlinear_arith);
                assert(pt == spec_band_point(values@, periods as int, k as int, i as int));
            }
            pt
        };
        bands.push(pt);
        i = i + 1;
    }
    bands
}

/// The rolling average of `values[lo .. hi)`, as `spec_window_avg`
/// states; it lies between the window's smallest and largest value.
fn window_avg(values: &Vec<i64>, lo: usize, hi: usize) -> (r: i64)
    requires
        lo < hi <= values@.len(),
        forall|j: int|
            0 <= j < values@.len() ==> -EMA_VALUE_LIMIT <= #[trigger] values@[j]
                <= EMA_VALUE_LIMIT,
    ensures
        r as int == spec_window_avg(values@, lo as int, hi as int),
        -EMA_VALUE_LIMIT <= r <= EMA_VALUE_LIMIT,
{
    let mut sum: i128 = 0;
    let mut j: usize = lo;
    while j < hi
        invariant
            lo <= j <= hi <= values@.len(),
            forall|q: int|
                0 <= q < values@.len() ==> -EMA_VALUE_LIMIT <= #[trigger] values@[q]
                    <= EMA_VALUE_LIMIT,
            sum as int == spec_sum(values@, lo as int, j as int),
            -(j - lo) * EMA_VALUE_LIMIT as int <= sum as int <= (j - lo) * EMA_VALUE_LIMIT as int,
        decreases hi - j,
    {
        proof {
            lemma_spec_sum_unfold(values@, lo as int, j as int);
            assert((j + 1 - lo) * EMA_VALUE_LIMIT as int == (j - lo) * EMA_VALUE_LIMIT as int
                + EMA_VALUE_LIMIT as int) by (nonlinear_arith);
        }
        sum = sum + (values[j] as i128);
        j = j + 1;
    }
    proof {
        lemma_sum_window_bounds(values@, lo as int, hi as int);
        vstd::arithmetic::div_mod::lemma_div_is_ordered(
            (-EMA_VALUE_LIMIT as int) * (hi - lo),
            sum as int,
            hi - lo,
        );
        vstd::arithmetic::div_mod::lemma_div_is_ordered(
            sum as int,
            (EMA_VALUE_LIMIT as int) * (hi - lo),
            hi - lo,
        );
        vstd::arithmetic::div_mod::lemma_div_multiples_vanish(-EMA_VALUE_LIMIT as int, hi - lo);
        vstd::arithmetic::div_mod::lemma_div_multiples_vanish(EMA_VALUE_LIMIT as int, hi - lo);
        assert((-EMA_VALUE_LIMIT as int) * (hi - lo) == (hi - lo) * (-EMA_VALUE_LIMIT as int)
            && (EMA_VALUE_LIMIT as int) * (hi - lo) == (hi - lo) * (EMA_VALUE_LIMIT as int))
            by (nonlinear_arith);
    }
    let d = (hi - lo) as i128;
    let q = floor_div_small(sum, d);
    q as i64
}

/// Extending a window sum by one sample adds that sample.
proof fn lemma_spec_sum_unfold(values: Seq<i64>, lo: int, j: int)
    requires
        0 <= lo <= j < values.len(),
    ensures
        spec_sum(values, lo, j + 1) == spec_sum(values, lo, j) + values[j],
    decreases j - lo,
{
    if lo < j {
        lemma_spec_sum_unfold(values, lo + 1, j);
    } else {
        assert(spec_sum(values, j + 1, j + 1) == 0);
        assert(spec_sum(values, j, j) == 0);
    }
}

/// A window sum lies between the window size times the global bounds.
proof fn lemma_sum_window_bounds(values: Seq<i64>, lo: int, hi: int)
    requires
        0 <= lo <= hi <= values.len(),
        forall|j: int|
            0 <= j < values.len() ==> -EMA_VALUE_LIMIT <= #[trigger] values[j]
                <= EMA_VALUE_LIMIT,
    ensures
        (-EMA_VALUE_LIMIT as int) * (hi - lo) <= spec_sum(values, lo, hi) <= (
        EMA_VALUE_LIMIT as int) * (hi - lo),
    decreases hi - lo,
{
    if lo < hi {
        lemma_sum_window_bounds(values, lo + 1, hi);
        assert((-EMA_VALUE_LIMIT as int) * (hi - lo) == (-EMA_VALUE_LIMIT as int) + (
        -EMA_VALUE_LIMIT as int) * (hi - lo - 1) && (EMA_VALUE_LIMIT as int) * (hi - lo) == (
        EMA_VALUE_LIMIT as int) + (EMA_VALUE_LIMIT as int) * (hi - lo - 1)) by (nonlinear_arith);
    } else {
        assert((-EMA_VALUE_LIMIT as int) * 0 == 0 && (EMA_VALUE_LIMIT as int) * 0 == 0)
            by (nonlinear_arith);
    }
}

/// Floor division of a moderate-sized sum by a positive window size.
fn floor_div_small(n: i128, d: i128) -> (r: i128)
    requires
        0 < d,
        -0x1_0000_0000_0000_0000_0000_0000_0000 <= n <= 0x1_0000_0000_0000_0000_0000_0000_0000,
    ensures
        r as int == n as int / d as int,
{
    if n >= 0 {
        ((n as u128) / (d as u128)) as i128
    } else {
        let m = (-n) as u128;
        let du = d as u128;
        let q = m / du;
        let rem = m % du;
        proof {
            vstd::arithmetic::div_mod::lemma_fundamental_div_mod(m as int, du as int);
            vstd::arithmetic::div_mod::lemma_mod_bound(m as int, du as int);
            assert(-((du as int) * (q as int) + rem) == (-(q as int)) * (du as int) + 0 - rem)
                by (nonlinear_arith);
            assert(-((du as int) * (q as int) + rem) == (-(q as int) - 1) * (du as int) + (du
                - rem)) by (nonlinear_arith);
            if rem == 0 {
                vstd::arithmetic::div_mod::lemma_fundamental_div_mod_converse(
                    n as int,
                    d as int,
                    -(q as int),
                    0,
                );
            } else {
                vstd::arithmetic::div_mod::lemma_fundamental_div_mod_converse(
                    n as int,
                    d as int,
                    -(q as int) - 1,
                    d - rem,
                );
            }
        }
        if rem == 0 {
            -(q as i128)
        } else {
            -(q as i128) - 1
        }
    }
}

/// The sample standard deviation of `values[lo .. hi)`: the integer square
/// root of the sample variance around the window average.
fn window_std_dev(values: &Vec<i64>, lo: usize, hi: usize) -> (r: i64)
    requires
        lo < hi <= values@.len(),
        2 <= hi - lo <= 1_000_000_002,
        forall|j: int|
            0 <= j < values@.len() ==> -EMA_VALUE_LIMIT <= #[trigger] values@[j]
                <= EMA_VALUE_LIMIT,
    ensures
        is_isqrt(r as int, spec_window_var(values@, lo as int, hi as int)),
        0 <= r <= 12_000_000_000_000,
{
    let avg = window_avg(values, lo, hi);
    let mut sq_sum: u128 = 0;
    let mut j: usize = lo;
    while j < hi
        invariant
            lo <= j <= hi <= values@.len(),
            hi - lo <= 1_000_000_002,
            forall|q: int|
                0 <= q < values@.len() ==> -EMA_VALUE_LIMIT <= #[trigger] values@[q]
                    <= EMA_VALUE_LIMIT,
            -EMA_VALUE_LIMIT <= avg <= EMA_VALUE_LIMIT,
            sq_sum as int == spec_sq_dev_sum(values@, lo as int, j as int, avg as int),
            sq_sum as int <= (j - lo) * 64_000_000_000_000_000_000_000_000,
        decreases hi - j,
    {
        proof {
            lemma_sq_dev_unfold(values@, lo as int, j as int, avg as int);
            assert(((avg - values@[j as int]) as int) * ((avg - values@[j as int]) as int)
                <= 64_000_000_000_000_000_000_000_000 && 0 <= ((avg - values@[j as int]) as int)
                * ((avg - values@[j as int]) as int)) by (nonlinear_arith)
                requires
                    -2 * EMA_VALUE_LIMIT as int <= avg - values@[j as int] <= 2
                        * EMA_VALUE_LIMIT as int,
            ;
            assert((j + 1 - lo) * 64_000_000_000_000_000_000_000_000 == (j - lo)
                * 64_000_000_000_000_000_000_000_000 + 64_000_000_000_000_000_000_000_000)
                by (nonlinear_arith);
            assert((j - lo) * 64_000_000_000_000_000_000_000_000 <= 1_000_000_002
                * 64_000_000_000_000_000_000_000_000) by (nonlinear_arith)
                requires
                    j - lo <= 1_000_000_002,
            ;
        }
        let diff = (avg as i128) - (values[j] as i128);
        let sq = (diff * diff) as u128;
        sq_sum = sq_sum + sq;
        j = j + 1;
    }
    let denom = (hi - lo - 1) as u128;
    let var = sq_sum / denom;
    proof {
        vstd::arithmetic::div_mod::lemma_div_pos_is_pos(sq_sum as int, denom as int);
        assert(sq_sum as int <= (denom as int) * 128_000_000_000_000_000_000_000_000)
            by (nonlinear_arith)
            requires
                sq_sum as int <= ((hi - lo) as int) * 64_000_000_000_000_000_000_000_000,
                denom as int == hi - lo - 1,
                1 <= denom as int,
        ;
        vstd::arithmetic::div_mod::lemma_div_is_ordered(
            sq_sum as int,
            (denom as int) * 128_000_000_000_000_000_000_000_000,
            denom as int,
        );
        vstd::arithmetic::div_mod::lemma_div_multiples_vanish(
            128_000_000_000_000_000_000_000_000,
            denom as int,
        );
        assert((denom as int) * 128_000_000_000_000_000_000_000_000
            == 128_000_000_000_000_000_000_000_000 * (denom as int)) by (nonlinear_arith);
    }
    isqrt_u128(var)
}

/// Extending a squared-deviation sum by one sample adds that sample's
/// squared deviation.
proof fn lemma_sq_dev_unfold(values: Seq<i64>, lo: int, j: int, avg: int)
    requires
        0 <= lo <= j < values.len(),
    ensures
        spec_sq_dev_sum(values, lo, j + 1, avg) == spec_sq_dev_sum(values, lo, j, avg) + (avg
            - values[j]) * (avg - values[j]),
    decreases j - lo,
{
    if lo < j {
        lemma_sq_dev_unfold(values, lo + 1, j, avg);
    } else {
        assert(spec_sq_dev_sum(values, j + 1, j + 1, avg) == 0);
        assert(spec_sq_dev_sum(values, j, j, avg) == 0);
    }
}

/// The integer square root: the largest whole number whose square does not
/// exceed the value.
fn isqrt_u128(v: u128) -> (r: i64)
    requires
        v <= 128_000_000_000_000_000_000_000_000,
    ensures
        is_isqrt(r as int, v as int),
        0 <= r <= 12_000_000_000_000,
{
    let mut lo: u128 = 0;
    let mut hi: u128 = 12_000_000_000_000;
    proof {
        assert(12_000_000_000_001i128 * 12_000_000_000_001i128
            > 128_000_000_000_000_000_000_000_000i128) by (nonlinear_arith);
    }
    while lo < hi
        invariant
            0 <= lo <= hi <= 12_000_000_000_000,
            lo * lo <= v as int,
            (v as int) < (hi + 1) * (hi + 1),
        decreases hi - lo,
    {
        let mid = lo + (hi - lo + 1) / 2;
        proof {
            assert(lo < mid <= hi);
            assert(mid * mid <= 12_000_000_000_000i128 * 12_000_000_000_000i128)
                by (nonlinear_arith)
                requires
                    0 <= mid <= 12_000_000_000_000,
            ;
        }
        if mid * mid <= v {
            lo = mid;
        } else {
            hi = mid - 1;
        }
    }
    lo as i64
}

/// A Bollinger Bands overlay: a rolling average of the candle medians with
/// an envelope a fixed number of sample standard deviations wide, drawn as
/// three polylines.
#[derive(Clone, Copy, Debug)]
pub struct BollingerBands {
    /// The rolling window size, in candles (half before, half after each
    /// point).
    pub periods: usize,
    /// How many standard deviations the envelope spans on each side.
    pub standard_deviations: usize,
    /// Colour of the three polylines.
    pub line_colour: u32,
}

impl BollingerBands {
    /// A band overlay with the given window, width and colour.
    pub fn new(periods: usize, standard_deviations: usize, line_colour: u32) -> (r:
        BollingerBands)
        requires
            periods <= MAX_PERIODS,
            standard_deviations <= 100,
        ensures
            r.periods == periods,
            r.standard_deviations == standard_deviations,
            r.line_colour == line_colour,
            r.wf(),
    {
        BollingerBands { periods, standard_deviations, line_colour }
    }
}

impl RendererExtension for BollingerBands {
    open spec fn wf(&self) -> bool {
        &&& self.periods <= MAX_PERIODS
        &&& self.standard_deviations <= 100
    }

    open spec fn name_spec(&self) -> Seq<char> {
        "BB("@ + spec_decimal(self.periods as int) + ", "@ + spec_decimal(
            self.standard_deviations as int,
        ) + ")"@
    }

    open spec fn lore_colour_spec(&self) -> Option<u32> {
        None
    }

    open spec fn painted(&self, pre: ChartView, data: Seq<OHLC>) -> Seq<u8> {
        crate::painting::ops_bytes(
            pre.bytes,
            pre.width,
            pre.height,
            pre.background,
            band_ops(
                pre,
                band_seq(
                    crate::rex::ema::median_seq(data),
                    self.periods as int,
                    self.standard_deviations as int,
                ),
                data.len() as int,
                self.line_colour,
                0,
            ),
        )
    }

    fn apply(&self, buffer: &mut ChartBuffer, data: &[OHLC]) {
        let ghost v = buffer.view();
        let medians = median_list(data);
        let bands = bollinger_points(&medians, self.periods, self.standard_deviations);
        proof {
            assert(medians@ =~= crate::rex::ema::median_seq(data@));
            assert(bands@ =~= band_seq(
                crate::rex::ema::median_seq(data@),
                self.periods as int,
                self.standard_deviations as int,
            ));
        }
        let n = data.len();
        let tf = buffer.timeframe as u64;
        let offset = ((tf as u128) / (2u128 * (n as u128))) as u64;
        proof {
            vstd::arithmetic::div_mod::lemma_div_is_ordered_by_denominator(
                tf as int,
                1,
                2 * n as int,
            );
            vstd::arithmetic::div_mod::lemma_fundamental_div_mod(tf as int, 1);
            vstd::arithmetic::div_mod::lemma_mod_bound(tf as int, 1);
        }
        let m = bands.len();
        let mut ops: Vec<PaintOp> = Vec::new();
        let mut i: usize = 0;
        if m > 0 {
            while i < m - 1
                invariant
                    *buffer == *old(buffer),
                    buffer.wf(),
                    v == buffer.view(),
                    1 <= m == bands@.len(),
                    m == n,
                    0 < n,
                    tf == buffer.timeframe as u64,
                    0 < buffer.timeframe <= crate::buffer::TIME_LIMIT,
                    offset as int == v.timeframe / (2 * n as int),
                    offset <= crate::buffer::TIME_LIMIT as u64,
                    0 <= i,
                    forall|j: int| 0 <= j < ops@.len() ==> op_ok(#[trigger] ops@[j]),
                    band_ops(v, bands@, n as int, self.line_colour, 0) == ops@ + band_ops(
                        v,
                        bands@,
                        n as int,
                        self.line_colour,
                        i as int,
                    ),
                decreases m - i,
            {
                let t1 = band_time(tf, i, n) + offset as i64;
                let t2 = band_time(tf, i + 1, n) + offset as i64;
                let b1 = bands[i];
                let b2 = bands[i + 1];
                let p1h = buffer.data_to_coords(b1.higher, t1);
                let p2h = buffer.data_to_coords(b2.higher, t2);
                let p1m = buffer.data_to_coords(b1.median, t1);
                let p2m = buffer.data_to_coords(b2.median, t2);
                let p1l = buffer.data_to_coords(b1.lower, t1);
                let p2l = buffer.data_to_coords(b2.lower, t2);
                let oph = PaintOp::Line { a: p1h, b: p2h, rgba: self.line_colour };
                let opm = PaintOp::Line { a: p1m, b: p2m, rgba: self.line_colour };
                let opl = PaintOp::Line { a: p1l, b: p2l, rgba: self.line_colour };
                let ghost rest = band_ops(v, bands@, n as int, self.line_colour, i as int + 1);
                proof {
                    assert(band_ops(v, bands@, n as int, self.line_colour, i as int)
                        == seq![oph, opm, opl] + rest);
                    assert(ops@.push(oph).push(opm).push(opl) + rest =~= ops@ + (seq![
                        oph,
                        opm,
                        opl,
                    ] + rest));
                }
                ops.push(oph);
                ops.push(opm);
                ops.push(opl);
                i = i + 1;
            }
        }
        proof {
            assert(band_ops(v, bands@, n as int, self.line_colour, i as int)
                =~= Seq::<PaintOp>::empty());
            assert(ops@ + Seq::<PaintOp>::empty() =~= ops@);
            if m == 0 {
                assert(band_ops(v, bands@, n as int, self.line_colour, 0)
                    =~= Seq::<PaintOp>::empty());
            }
        }
        buffer.paint_ops(&ops);
    }

    fn name(&self) -> (r: String) {
        let mut s = String::from_str("BB(");
        s.append(u64_to_string(self.periods as u64).as_str());
        s.append(", ");
        s.append(u64_to_string(self.standard_deviations as u64).as_str());
        s.append(")");
        proof {
            assert(s@ =~= self.name_spec());
        }
        s
    }

    fn lore_colour(&self) -> (r: Option<u32>) {
        None
    }
}

/// Band point `i`'s position on the time axis: `tf * i / n`, rounded down.
fn band_time(tf: u64, i: usize, n: usize) -> (r: i64)
    requires
        i < n,
        tf <= crate::buffer::TIME_LIMIT as u64,
    ensures
        r as int == (i as int) * (tf as int) / (n as int),
        0 <= r <= crate::buffer::TIME_LIMIT,
{
    proof {
        assert((i as int) * (tf as int) < 0x100000000000000000000000000000000)
            by (nonlinear_arith)
            requires
                0 <= i <= 0xFFFF_FFFF_FFFF_FFFF,
                0 <= tf <= 0xFFFF_FFFF_FFFF_FFFF,
        ;
        crate::painting::lemma_interp_bounds(i as int, tf as int, n as int);
    }
    let v = ((i as u128) * (tf as u128)) / (n as u128);
    v as i64
}

} // verus!
