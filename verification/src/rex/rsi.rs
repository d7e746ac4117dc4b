use vstd::prelude::*;
use vstd::string::StringExecFns;

use crate::buffer::strip_point;
use crate::buffer::ChartBuffer;
use crate::buffer::ExtensionStrip;
use crate::buffer::StripView;
use crate::data::candles_in_range;
use crate::data::OHLC;
use crate::data::PRICE_LIMIT;
use crate::painting::op_ok;
use crate::painting::Label;
use crate::painting::PaintOp;
use crate::painting::MAX_DIM;
use crate::rex::RendererExtension;

verus! {

/// The fixed window length of the relative-strength oscillator.
pub const RSI_PERIODS: usize = 10;

/// The close-to-close rise into candle `j`: how far its close lies above
/// the previous candle's close, zero for a falling step.
pub open spec fn spec_gain(data: Seq<OHLC>, j: int) -> int {
    if data[j].c >= data[j - 1].c {
        data[j].c - data[j - 1].c
    } else {
        0
    }
}

/// The close-to-close drop into candle `j`: how far its close lies below
/// the previous candle's close, zero for a rising step.
pub open spec fn spec_loss(data: Seq<OHLC>, j: int) -> int {
    if data[j].c >= data[j - 1].c {
        0
    } else {
        data[j - 1].c - data[j].c
    }
}

/// The total gain over the closes of the candles `[lo, hi)`: the sum of
/// the positive differences of their consecutive closes.
pub open spec fn spec_gain_sum(data: Seq<OHLC>, lo: int, hi: int) -> int
    decreases hi - lo,
{
    if lo + 1 >= hi || lo < 0 {
        0
    } else {
        spec_gain(data, lo + 1) + spec_gain_sum(data, lo + 1, hi)
    }
}

/// The total loss over the closes of the candles `[lo, hi)`: the sum of
/// the negative differences of their consecutive closes, as magnitudes.
pub open spec fn spec_loss_sum(data: Seq<OHLC>, lo: int, hi: int) -> int
    decreases hi - lo,
{
    if lo + 1 >= hi || lo < 0 {
        0
    } else {
        spec_loss(data, lo + 1) + spec_loss_sum(data, lo + 1, hi)
    }
}

/// The relative-strength index at candle `i`: the share of gains in the
/// total movement of the closes over the trailing window of `periods`
/// candles ending just before `i`, on a scale of 0 to 100, rounded down.
/// Gains and losses are the positive and negative differences of the
/// window's consecutive closes; the close preceding the window does not
/// contribute a difference, and a window whose closes never fall counts
/// as all gain.
pub open spec fn spec_rsi_at(data: Seq<OHLC>, periods: int, i: int) -> int {
    let g = spec_gain_sum(data, i - periods, i);
    let l = spec_loss_sum(data, i - periods, i);
    if g + l == 0 {
        100
    } else {
        (100 * g) / (g + l)
    }
}

/// The relative-strength series of a candle series: one value for each
/// index from `periods` on, built from the differences of the consecutive
/// closes in each trailing window. Every value lies between 0 and 100.
pub fn rsi_values(data: &[OHLC], periods: usize) -> (r: Vec<i64>)
    requires
        1 <= periods,
        candles_in_range(data@),
    ensures
        r@.len() == (if data@.len() > periods {
            data@.len() - periods
        } else {
            0
        }),
        forall|k: int|
            0 <= k < r@.len() ==> #[trigger] r@[k] as int == spec_rsi_at(
                data@,
                periods as int,
                k + periods,
            ),
        forall|k: int| 0 <= k < r@.len() ==> 0 <= #[trigger] r@[k] <= 100,
{
    let n = data.len();
    let mut out: Vec<i64> = Vec::new();
    if n <= periods {
        return out;
    }
    let mut i: usize = periods;
    while i < n
        invariant
            1 <= periods < n == data@.len(),
            candles_in_range(data@),
            periods <= i <= n,
            out@.len() == i - periods,
            forall|k: int|
                0 <= k < out@.len() ==> #[trigger] out@[k] as int == spec_rsi_at(
                    data@,
                    periods as int,
                    k + periods,
                ),
            forall|k: int| 0 <= k < out@.len() ==> 0 <= #[trigger] out@[k] <= 100,
        decreases n - i,
    {
        let lo = i - periods;
        let mut g: u128 = 0;
        let mut l: u128 = 0;
        let mut j: usize = lo + 1;
        while j < i
            invariant
                0 <= lo < j <= i < n == data@.len(),
                candles_in_range(data@),
                g as int == spec_gain_sum(data@, lo as int, j as int),
                l as int == spec_loss_sum(data@, lo as int, j as int),
                g as int <= (j - lo) * (2 * PRICE_LIMIT as int),
                l as int <= (j - lo) * (2 * PRICE_LIMIT as int),
            decreases i - j,
        {
            proof {
                assert(crate::data::in_price_range(data@[j as int]));
                assert(crate::data::in_price_range(data@[j as int - 1]));
                lemma_sum_unfold(data@, lo as int, j as int);
                assert((j + 1 - lo) * (2 * PRICE_LIMIT as int) == (j - lo) * (2
                    * PRICE_LIMIT as int) + 2 * PRICE_LIMIT as int) by (nonlinear_arith);
                assert((j - lo) * (2 * PRICE_LIMIT as int) <= 0xFFFF_FFFF_FFFF_FFFF * (2
                    * PRICE_LIMIT as int)) by (nonlinear_arith)
                    requires
                        0 <= j - lo <= 0xFFFF_FFFF_FFFF_FFFF,
                ;
            }
            let prev = data[j - 1].c;
            let cur = data[j].c;
            if cur >= prev {
                g = g + ((cur - prev) as u128);
            } else {
                l = l + ((prev - cur) as u128);
            }
            j = j + 1;
        }
        let value: i64 = if g + l == 0 {
            100
        } else {
            proof {
                vstd::arithmetic::div_mod::lemma_div_pos_is_pos(100 * (g as int), (g + l) as int);
                assert(100 * (g as int) <= 100 * ((g + l) as int)) by (nonlinear_arith)
                    requires
                        g as int <= (g + l) as int,
                ;
                vstd::arithmetic::div_mod::lemma_div_is_ordered(
                    100 * (g as int),
                    100 * ((g + l) as int),
                    (g + l) as int,
                );
                vstd::arithmetic::div_mod::lemma_div_multiples_vanish(100, (g + l) as int);
                assert(100 * ((g + l) as int) == ((g + l) as int) * 100) by (nonlinear_arith);
            }
            ((100 * g) / (g + l)) as i64
        };
        out.push(value);
        i = i + 1;
    }
    out
}

/// Extending a gain or loss sum by one close adds the difference into
/// that close.
proof fn lemma_sum_unfold(data: Seq<OHLC>, lo: int, j: int)
    requires
        0 <= lo < j,
    ensures
        spec_gain_sum(data, lo, j + 1) == spec_gain_sum(data, lo, j) + spec_gain(data, j),
        spec_loss_sum(data, lo, j + 1) == spec_loss_sum(data, lo, j) + spec_loss(data, j),
    decreases j - lo,
{
    if lo + 1 < j {
        lemma_sum_unfold(data, lo + 1, j);
    } else {
        assert(spec_gain_sum(data, j, j + 1) == 0);
        assert(spec_gain_sum(data, lo, j) == 0);
        assert(spec_loss_sum(data, j, j + 1) == 0);
        assert(spec_loss_sum(data, lo, j) == 0);
    }
}

/// The relative-strength series as a mathematical sequence: one value per
/// index from `periods` on.
pub open spec fn rsi_seq(data: Seq<OHLC>, periods: int) -> Seq<i64> {
    Seq::new(
        if data.len() > periods {
            (data.len() - periods) as nat
        } else {
            0
        },
        |k: int| spec_rsi_at(data, periods, k + periods) as i64,
    )
}

/// The display list of one strip reference line: a full-plot-width line at
/// the progress fraction `num / den`, captioned just right of the plot
/// area (clamped at the top edge).
pub open spec fn ref_line_ops(
    sv: StripView,
    num: int,
    den: int,
    caption: &'static str,
    rgba: u32,
) -> Seq<PaintOp> {
    let p1 = strip_point(sv, num, den, 0);
    let p2 = strip_point(sv, num, den, sv.timeframe);
    seq![
        PaintOp::Line { a: p1, b: p2, rgba },
        PaintOp::Text {
            at: (
                (p2.0 + 4) as usize,
                if p2.1 >= 8 {
                    (p2.1 - 8) as usize
                } else {
                    0usize
                },
            ),
            label: Label::Lit(caption),
            rgba,
        },
    ]
}

/// The display list of the oscillator curve from segment `i` on, shifted
/// right to the centre of its trailing window.
pub open spec fn rsi_curve_ops(
    sv: StripView,
    vals: Seq<i64>,
    n: int,
    offset: int,
    colour: u32,
    i: int,
) -> Seq<PaintOp>
    decreases vals.len() - i,
{
    if i < 0 || i + 1 >= vals.len() {
        Seq::empty()
    } else {
        seq![
            PaintOp::Line {
                a: strip_point(sv, vals[i] as int, 100, i * sv.timeframe / n + offset),
                b: strip_point(
                    sv,
                    vals[i + 1] as int,
                    100,
                    (i + 1) * sv.timeframe / n + offset,
                ),
                rgba: colour,
            },
        ] + rsi_curve_ops(sv, vals, n, offset, colour, i + 1)
    }
}

/// The whole display list of the oscillator panel: the title, the
/// overbought and oversold bands, the 0/50/100 reference lines, and the
/// curve.
pub open spec fn rsi_strip_ops(sv: StripView, data: Seq<OHLC>, e: RSI) -> Seq<PaintOp> {
    seq![
        PaintOp::Text { at: (8usize, 8usize), label: Label::Lit("RSI(10)"), rgba: e.label_colour },
    ] + ref_line_ops(sv, 7, 10, "Overbought", e.overbought_colour) + ref_line_ops(
        sv,
        3,
        10,
        "Oversold",
        e.oversold_colour,
    ) + ref_line_ops(sv, 0, 100, "0", e.label_colour) + ref_line_ops(
        sv,
        50,
        100,
        "50",
        e.label_colour,
    ) + ref_line_ops(sv, 100, 100, "100", e.label_colour) + rsi_curve_ops(
        sv,
        rsi_seq(data, RSI_PERIODS as int),
        data.len() as int,
        (2 * RSI_PERIODS + 1) * sv.timeframe / (2 * data.len() as int),
        e.colour,
        0,
    )
}

/// The relative-strength oscillator: the share of rising close-to-close
/// movement over each trailing window, rendered in its own sub-panel on a
/// 0 to 100 scale, with reference lines at 0, 30, 50, 70 and 100 and
/// marked overbought and oversold bands.
#[derive(Clone, Copy, Debug)]
pub struct RSI {
    /// Colour of the reference lines and labels.
    pub label_colour: u32,
    /// Colour of the oscillator curve.
    pub colour: u32,
    /// Colour of the overbought band marker.
    pub overbought_colour: u32,
    /// Colour of the oversold band marker.
    pub oversold_colour: u32,
}

impl RSI {
    /// An oscillator panel with the given colours.
    pub fn new(label_colour: u32, colour: u32, overbought_colour: u32, oversold_colour: u32) -> (r:
        RSI)
        ensures
            r.label_colour == label_colour,
            r.colour == colour,
            r.overbought_colour == overbought_colour,
            r.oversold_colour == oversold_colour,
            r.wf(),
    {
        RSI { label_colour, colour, overbought_colour, oversold_colour }
    }
}

impl RendererExtension for RSI {
    open spec fn wf(&self) -> bool {
        true
    }

    open spec fn name_spec(&self) -> Seq<char> {
        "RSI(10)"@
    }

    open spec fn lore_colour_spec(&self) -> Option<u32> {
        None
    }

    open spec fn painted(&self, pre: crate::buffer::ChartView, data: Seq<OHLC>) -> Seq<u8> {
        let sv = crate::buffer::sub_strip_of(pre, 175);
        let strip_bytes = crate::painting::ops_bytes(
            crate::painting::fill_bytes(pre.width * 175, pre.background),
            pre.width,
            175,
            pre.background,
            rsi_strip_ops(sv, data, *self),
        );
        if pre.height + 175 <= MAX_DIM {
            pre.bytes + strip_bytes
        } else {
            pre.bytes
        }
    }

    fn apply(&self, buffer: &mut ChartBuffer, data: &[OHLC]) {
        let rsi = rsi_values(data, RSI_PERIODS);
        proof {
            assert(rsi@ =~= rsi_seq(data@, RSI_PERIODS as int));
        }
        let strip_result = buffer.create_extension_strip(175);
        let mut strip = match strip_result {
            Ok(s) => s,
            Err(_) => {
                proof {
                    assert(false);
                }
                return ;
            },
        };
        let ghost sv = strip.view();
        let mut ops: Vec<PaintOp> = Vec::new();
        ops.push(
            PaintOp::Text { at: (8, 8), label: Label::Lit("RSI(10)"), rgba: self.label_colour },
        );
        // reference lines: the overbought and oversold bands, then 0, 50
        // and 100
        push_ref_line(&mut ops, &strip, 7, 10, "Overbought", self.overbought_colour);
        push_ref_line(&mut ops, &strip, 3, 10, "Oversold", self.oversold_colour);
        push_ref_line(&mut ops, &strip, 0, 100, "0", self.label_colour);
        push_ref_line(&mut ops, &strip, 50, 100, "50", self.label_colour);
        push_ref_line(&mut ops, &strip, 100, 100, "100", self.label_colour);
        let ghost head = ops@;
        // the oscillator curve, shifted right to the centre of its window
        let n = data.len();
        let tf = strip.timeframe as u64;
        let offx: u128 = ((2 * RSI_PERIODS + 1) as u128 * tf as u128) / (2u128 * (n as u128));
        proof {
            vstd::arithmetic::div_mod::lemma_div_is_ordered_by_denominator(
                (2 * RSI_PERIODS + 1) as int * tf as int,
                1,
                2 * n as int,
            );
            vstd::arithmetic::div_mod::lemma_fundamental_div_mod(
                (2 * RSI_PERIODS + 1) as int * tf as int,
                1,
            );
            vstd::arithmetic::div_mod::lemma_mod_bound((2 * RSI_PERIODS + 1) as int * tf as int, 1);
            assert((2 * RSI_PERIODS + 1) as int * tf as int <= 21 * crate::buffer::TIME_LIMIT as int)
                by (nonlinear_arith)
                requires
                    tf <= crate::buffer::TIME_LIMIT as u64,
            ;
        }
        let offset = offx as u64;
        if rsi.len() > 0 {
            let m = rsi.len();
            let mut i: usize = 0;
            while i < m - 1
                invariant
                    strip.wf(),
                    sv == strip.view(),
                    strip.raster.spec_width() == old(buffer).raster.spec_width(),
                    strip.raster.spec_height() == 175,
                    strip.raster.bytes() == crate::painting::fill_bytes(
                        sv.width * 175,
                        sv.background,
                    ),
                    1 <= m == rsi@.len(),
                    m <= n,
                    rsi@ == rsi_seq(data@, RSI_PERIODS as int),
                    forall|k: int| 0 <= k < rsi@.len() ==> 0 <= #[trigger] rsi@[k] <= 100,
                    0 < n == data@.len(),
                    tf == strip.timeframe as u64,
                    0 < strip.timeframe <= crate::buffer::TIME_LIMIT,
                    offset as int == (2 * RSI_PERIODS + 1) * sv.timeframe / (2 * n as int),
                    offset <= 21 * crate::buffer::TIME_LIMIT as u64,
                    0 <= i,
                    forall|j: int| 0 <= j < ops@.len() ==> op_ok(#[trigger] ops@[j]),
                    head + rsi_curve_ops(sv, rsi@, n as int, offset as int, self.colour, 0)
                        == ops@ + rsi_curve_ops(
                        sv,
                        rsi@,
                        n as int,
                        offset as int,
                        self.colour,
                        i as int,
                    ),
                decreases m - i,
            {
                let t1 = time_share(tf, i, n) + offset as i64;
                let t2 = time_share(tf, i + 1, n) + offset as i64;
                let p1 = strip.data_to_coords(rsi[i], 100, t1);
                let p2 = strip.data_to_coords(rsi[i + 1], 100, t2);
                let op = PaintOp::Line { a: p1, b: p2, rgba: self.colour };
                let ghost rest = rsi_curve_ops(
                    sv,
                    rsi@,
                    n as int,
                    offset as int,
                    self.colour,
                    i as int + 1,
                );
                proof {
                    assert(rsi_curve_ops(sv, rsi@, n as int, offset as int, self.colour, i as int)
                        == seq![op] + rest);
                    assert(ops@.push(op) + rest =~= ops@ + (seq![op] + rest));
                }
                ops.push(op);
                i = i + 1;
            }
            proof {
                assert(rsi_curve_ops(sv, rsi@, n as int, offset as int, self.colour, i as int)
                    =~= Seq::<PaintOp>::empty());
                assert(ops@ + Seq::<PaintOp>::empty() =~= ops@);
            }
        } else {
            proof {
                assert(rsi_curve_ops(sv, rsi@, n as int, offset as int, self.colour, 0)
                    =~= Seq::<PaintOp>::empty());
                assert(ops@ + Seq::<PaintOp>::empty() =~= ops@);
            }
        }
        proof {
            assert(ops@ == rsi_strip_ops(sv, data@, *self));
        }
        strip.paint_ops(&ops);
        if buffer.height() <= MAX_DIM - 175 {
            buffer.attach_extension_strip(strip);
        }
    }

    fn name(&self) -> (r: String) {
        String::from_str("RSI(10)")
    }

    fn lore_colour(&self) -> (r: Option<u32>) {
        None
    }
}

/// Append the display list of one captioned strip reference line.
pub(crate) fn push_ref_line(
    ops: &mut Vec<PaintOp>,
    strip: &ExtensionStrip,
    num: i64,
    den: i64,
    caption: &'static str,
    colour: u32,
)
    requires
        strip.wf(),
        0 < den <= crate::buffer::PROGRESS_LIMIT,
        0 <= num,
    ensures
        final(ops)@ == old(ops)@ + ref_line_ops(
            strip.view(),
            num as int,
            den as int,
            caption,
            colour,
        ),
        forall|j: int|
            old(ops)@.len() <= j < final(ops)@.len() ==> op_ok(#[trigger] final(ops)@[j]),
        forall|j: int| 0 <= j < old(ops)@.len() ==> final(ops)@[j] == old(ops)@[j],
{
    let p1 = strip.data_to_coords(num, den, 0);
    let p2 = strip.data_to_coords(num, den, strip.timeframe);
    let ly = if p2.1 >= 8 {
        p2.1 - 8
    } else {
        0
    };
    let line = PaintOp::Line { a: p1, b: p2, rgba: colour };
    let text = PaintOp::Text { at: (p2.0 + 4, ly), label: Label::Lit(caption), rgba: colour };
    proof {
        assert(old(ops)@ + ref_line_ops(strip.view(), num as int, den as int, caption, colour)
            =~= old(ops)@.push(line).push(text));
    }
    ops.push(line);
    ops.push(text);
}

/// Candle `i`'s share of the time axis: `tf * i / n`, rounded down.
fn time_share(tf: u64, i: usize, n: usize) -> (r: i64)
    requires
        i < n,
        tf <= crate::buffer::TIME_LIMIT as u64,
    ensures
        r as int == (i as int) * (tf as int) / (n as int),
        0 <= r <= crate::buffer::TIME_LIMIT,
{
    proof {
        assert((tf as int) * (i as int) < 0x100000000000000000000000000000000)
            by (nonlinear_arith)
            requires
                0 <= i <= 0xFFFF_FFFF_FFFF_FFFF,
                0 <= tf <= 0xFFFF_FFFF_FFFF_FFFF,
        ;
        crate::painting::lemma_interp_bounds(i as int, tf as int, n as int);
        assert((tf as int) * (i as int) == (i as int) * (tf as int)) by (nonlinear_arith);
    }
    let v = ((tf as u128) * (i as u128)) / (n as u128);
    v as i64
}

} // verus!
