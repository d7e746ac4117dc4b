use vstd::prelude::*;
use vstd::string::StringExecFns;

use crate::buffer::view_point;
use crate::buffer::ChartBuffer;
use crate::buffer::ChartView;
use crate::data::OHLC;
use crate::painting::op_ok;
use crate::painting::PaintOp;
use crate::rex::RendererExtension;

verus! {

/// The display list of one candle: its body block from open to close over
/// four fifths of its time slot, and its thin high-to-low wick centred in
/// the slot, both in the rising or falling colour.
pub open spec fn candle_pair(
    v: ChartView,
    up: u32,
    down: u32,
    data: Seq<OHLC>,
    period: int,
    pa: int,
    i: int,
) -> Seq<PaintOp> {
    let c = data[i];
    let colour = if c.o > c.c {
        down
    } else {
        up
    };
    let left = i * period;
    let time = left + pa / 2;
    seq![
        PaintOp::Rect {
            a: view_point(v, c.o as int, left),
            b: view_point(v, c.c as int, left + pa),
            rgba: colour,
        },
        PaintOp::Rect {
            a: view_point(v, c.h as int, time - pa / 12),
            b: view_point(v, c.l as int, time + pa / 12),
            rgba: colour,
        },
    ]
}

/// The display list of the first `n` candles, in order.
pub open spec fn candle_ops(
    v: ChartView,
    up: u32,
    down: u32,
    data: Seq<OHLC>,
    period: int,
    pa: int,
    n: int,
) -> Seq<PaintOp>
    decreases n,
{
    if n <= 0 {
        Seq::empty()
    } else {
        candle_ops(v, up, down, data, period, pa, n - 1) + candle_pair(
            v,
            up,
            down,
            data,
            period,
            pa,
            n - 1,
        )
    }
}

/// The candle body renderer: one filled block from open to close per
/// candle, coloured by direction, plus a thin high-to-low wick centred in
/// the candle's time slot.
#[derive(Clone, Copy, Debug)]
pub struct OHLCCandles {
    /// Colour for candles that close at or above their open.
    pub up_colour: u32,
    /// Colour for candles that close below their open.
    pub down_colour: u32,
}

impl OHLCCandles {
    /// A candle renderer with the given direction colours.
    pub fn new(up_colour: u32, down_colour: u32) -> (r: OHLCCandles)
        ensures
            r.up_colour == up_colour,
            r.down_colour == down_colour,
            r.wf(),
    {
        OHLCCandles { up_colour, down_colour }
    }
}

impl RendererExtension for OHLCCandles {
    open spec fn wf(&self) -> bool {
        true
    }

    open spec fn name_spec(&self) -> Seq<char> {
        "OHLC_Candles()"@
    }

    open spec fn lore_colour_spec(&self) -> Option<u32> {
        None
    }

    open spec fn painted(&self, pre: crate::buffer::ChartView, data: Seq<OHLC>) -> Seq<u8> {
        let period = pre.timeframe / (data.len() as int);
        crate::painting::ops_bytes(
            pre.bytes,
            pre.width,
            pre.height,
            pre.background,
            candle_ops(
                pre,
                self.up_colour,
                self.down_colour,
                data,
                period,
                4 * period / 5,
                data.len() as int,
            ),
        )
    }

    fn apply(&self, buffer: &mut ChartBuffer, data: &[OHLC]) {
        let ghost v = buffer.view();
        let n = data.len();
        let period = (buffer.timeframe as u64) / (n as u64);
        // the body spans four fifths of the slot, the wick one sixth of that
        let period_addition = 4 * period / 5;
        let ghost periodg = period as int;
        let ghost pag = period_addition as int;
        let mut ops: Vec<PaintOp> = Vec::new();
        let mut i: usize = 0;
        while i < n
            invariant
                *buffer == *old(buffer),
                buffer.wf(),
                v == buffer.view(),
                n == data@.len(),
                0 < n,
                period == buffer.timeframe as u64 / (n as u64),
                period_addition == 4 * period / 5,
                periodg == period as int,
                pag == period_addition as int,
                0 <= i <= n,
                forall|j: int| 0 <= j < ops@.len() ==> op_ok(#[trigger] ops@[j]),
                ops@ == candle_ops(
                    v,
                    self.up_colour,
                    self.down_colour,
                    data@,
                    periodg,
                    pag,
                    i as int,
                ),
            decreases n - i,
        {
            let candle = &data[i];
            let open = candle.o;
            let close = candle.c;
            let colour = if open > close {
                self.down_colour
            } else {
                self.up_colour
            };
            proof {
                assert((i as int) * (period as int) + (period as int) <= (n as int) * (
                period as int)) by (nonlinear_arith)
                    requires
                        0 <= i < n,
                        0 <= period,
                ;
                assert((n as int) * (period as int) <= buffer.timeframe as int) by {
                    vstd::arithmetic::div_mod::lemma_fundamental_div_mod(
                        buffer.timeframe as int,
                        n as int,
                    );
                    vstd::arithmetic::div_mod::lemma_mod_bound(
                        buffer.timeframe as int,
                        n as int,
                    );
                }
                assert((period as int) * (i as int) == (i as int) * (period as int))
                    by (nonlinear_arith);
                assert(4 * (period as int) <= 5 * (period as int)) by (nonlinear_arith)
                    requires
                        0 <= period,
                ;
                vstd::arithmetic::div_mod::lemma_div_is_ordered(
                    4 * (period as int),
                    5 * (period as int),
                    5,
                );
                vstd::arithmetic::div_mod::lemma_div_multiples_vanish(period as int, 5);
                assert(5 * (period as int) == (period as int) * 5) by (nonlinear_arith);
                assert(0 * (period as int) + period as int <= (n as int) * (period as int))
                    by (nonlinear_arith)
                    requires
                        1 <= n,
                        0 <= period,
                ;
            }
            let left = (period * (i as u64)) as i64;
            // main body block
            let p1 = buffer.data_to_coords(open, left);
            let p2 = buffer.data_to_coords(close, left + (period_addition as i64));
            // wick
            let time = left + (period_addition / 2) as i64;
            let w1 = buffer.data_to_coords(candle.h, time - (period_addition / 12) as i64);
            let w2 = buffer.data_to_coords(candle.l, time + (period_addition / 12) as i64);
            let body = PaintOp::Rect { a: p1, b: p2, rgba: colour };
            let wick = PaintOp::Rect { a: w1, b: w2, rgba: colour };
            proof {
                assert(candle_ops(
                    v,
                    self.up_colour,
                    self.down_colour,
                    data@,
                    periodg,
                    pag,
                    i as int + 1,
                ) =~= ops@.push(body).push(wick));
            }
            ops.push(body);
            ops.push(wick);
            i = i + 1;
        }
        buffer.paint_ops(&ops);
    }

    fn name(&self) -> (r: String) {
        String::from_str("OHLC_Candles()")
    }

    fn lore_colour(&self) -> (r: Option<u32>) {
        None
    }
}

} // verus!
