use vstd::prelude::*;
use vstd::string::StringExecFns;

use crate::buffer::view_point;
use crate::buffer::ChartBuffer;
use crate::buffer::ChartView;
use crate::buffer::TIME_LIMIT;
use crate::data::OHLC;
use crate::data::PRICE_LIMIT;
use crate::painting::op_ok;
use crate::painting::Label;
use crate::painting::PaintOp;
use crate::rex::RendererExtension;

verus! {

/// The remainder of `n` divided by `d`, carrying the sign of `n`.
pub open spec fn spec_rem_trunc(n: int, d: int) -> int {
    if n >= 0 {
        n % d
    } else {
        -((-n) % d)
    }
}

/// The first grid boundary at or above the bottom of the price window.
pub open spec fn grid_start_price(v: ChartView, interval: int) -> int {
    v.min_price + interval - spec_rem_trunc(v.min_price, interval)
}

/// The display list of the horizontal grid: one full-plot-width line at
/// `price` and every `interval` above it up to the window top, each with
/// its value label when labelling is on.
pub open spec fn grid_price_ops(
    v: ChartView,
    colour: u32,
    label: bool,
    interval: int,
    price: int,
) -> Seq<PaintOp>
    decreases v.max_price + interval - price,
{
    if interval < 1 || price > v.max_price {
        Seq::empty()
    } else {
        let p1 = view_point(v, price, 0);
        let p2 = view_point(v, price, v.timeframe);
        let this = if label {
            seq![
                PaintOp::Line { a: p1, b: p2, rgba: colour },
                PaintOp::Text {
                    at: (
                        (p2.0 + 4) as usize,
                        if p2.1 >= 8 {
                            (p2.1 - 8) as usize
                        } else {
                            0usize
                        },
                    ),
                    label: Label::Signed(price as i64),
                    rgba: colour,
                },
            ]
        } else {
            seq![PaintOp::Line { a: p1, b: p2, rgba: colour }]
        };
        this + grid_price_ops(v, colour, label, interval, price + interval)
    }
}

/// The display list of the vertical grid: one full-plot-height line every
/// `ti` seconds, walked backwards from the window end for `iters` steps,
/// each with its elapsed-time label when labelling is on.
pub open spec fn grid_time_ops(
    v: ChartView,
    colour: u32,
    label: bool,
    ti: int,
    iters: int,
    k: int,
) -> Seq<PaintOp>
    decreases iters - k,
{
    if k >= iters {
        Seq::empty()
    } else {
        let time = v.timeframe - k * ti;
        let base = view_point(v, v.min_price, time);
        let p1: crate::painting::Point = (base.0, (base.1 + 15) as usize);
        let p2 = view_point(v, v.max_price, time);
        let this = if label {
            seq![
                PaintOp::Line { a: p1, b: p2, rgba: colour },
                PaintOp::Text {
                    at: (
                        if p1.0 >= 10 {
                            (p1.0 - 10) as usize
                        } else {
                            0usize
                        },
                        (p1.1 + 2) as usize,
                    ),
                    label: Label::Duration((v.timeframe - time) as u64),
                    rgba: colour,
                },
            ]
        } else {
            seq![PaintOp::Line { a: p1, b: p2, rgba: colour }]
        };
        this + grid_time_ops(v, colour, label, ti, iters, k + 1)
    }
}

/// The chart grid: horizontal lines at every price interval from the first
/// interval boundary above the window bottom, and vertical lines at every
/// time interval across the window, optionally labelled.
#[derive(Clone, Copy, Debug)]
pub struct GridLines {
    /// Colour of the grid lines and labels.
    pub colour: u32,
    /// Whether to label the lines.
    pub label: bool,
    /// Price distance between horizontal lines, in price units.
    pub price_interval: i64,
    /// Time distance between vertical lines, in seconds.
    pub time_interval: i64,
}

impl GridLines {
    /// A grid with the given colour, labelling choice and line intervals.
    /// The intervals must be positive: a zero interval would place
    /// infinitely many lines.
    pub fn new(colour: u32, label: bool, price_interval: i64, time_interval: i64) -> (r:
        GridLines)
        requires
            1 <= price_interval <= PRICE_LIMIT,
            1 <= time_interval <= TIME_LIMIT,
        ensures
            r.colour == colour,
            r.label == label,
            r.price_interval == price_interval,
            r.time_interval == time_interval,
            r.wf(),
    {
        GridLines { colour, label, price_interval, time_interval }
    }
}

impl RendererExtension for GridLines {
    open spec fn wf(&self) -> bool {
        &&& 1 <= self.price_interval <= PRICE_LIMIT
        &&& 1 <= self.time_interval <= TIME_LIMIT
    }

    open spec fn name_spec(&self) -> Seq<char> {
        "CORE_GridLines()"@
    }

    open spec fn lore_colour_spec(&self) -> Option<u32> {
        None
    }

    open spec fn painted(&self, pre: crate::buffer::ChartView, data: Seq<OHLC>) -> Seq<u8> {
        crate::painting::ops_bytes(
            pre.bytes,
            pre.width,
            pre.height,
            pre.background,
            grid_price_ops(
                pre,
                self.colour,
                self.label,
                self.price_interval as int,
                grid_start_price(pre, self.price_interval as int),
            ) + grid_time_ops(
                pre,
                self.colour,
                self.label,
                self.time_interval as int,
                pre.timeframe / (self.time_interval as int) + 1,
                0,
            ),
        )
    }

    fn apply(&self, buffer: &mut ChartBuffer, data: &[OHLC]) {
        let ghost v = buffer.view();
        let interval = self.price_interval;
        let mut ops: Vec<PaintOp> = Vec::new();
        // horizontal price lines, from the first boundary above the bottom
        let m = rem_trunc(buffer.min_price, interval);
        let mut price = buffer.min_price + interval - m;
        let ghost start = price as int;
        while price <= buffer.max_price
            invariant
                *buffer == *old(buffer),
                buffer.wf(),
                v == buffer.view(),
                1 <= interval <= PRICE_LIMIT,
                interval == self.price_interval,
                buffer.min_price - interval <= price,
                forall|j: int| 0 <= j < ops@.len() ==> op_ok(#[trigger] ops@[j]),
                grid_price_ops(v, self.colour, self.label, interval as int, start) == ops@
                    + grid_price_ops(v, self.colour, self.label, interval as int, price as int),
            decreases buffer.max_price + interval - price,
        {
            let p1 = buffer.data_to_coords(price, 0);
            let p2 = buffer.data_to_coords(price, buffer.timeframe);
            let line = PaintOp::Line { a: p1, b: p2, rgba: self.colour };
            if self.label {
                let ly = if p2.1 >= 8 {
                    p2.1 - 8
                } else {
                    0
                };
                let text = PaintOp::Text {
                    at: (p2.0 + 4, ly),
                    label: Label::Signed(price),
                    rgba: self.colour,
                };
                proof {
                    assert(grid_price_ops(v, self.colour, self.label, interval as int, price as int)
                        == seq![line, text] + grid_price_ops(
                        v,
                        self.colour,
                        self.label,
                        interval as int,
                        price + interval,
                    ));
                    assert(ops@.push(line).push(text) + grid_price_ops(
                        v,
                        self.colour,
                        self.label,
                        interval as int,
                        price + interval,
                    ) =~= ops@ + (seq![line, text] + grid_price_ops(
                        v,
                        self.colour,
                        self.label,
                        interval as int,
                        price + interval,
                    )));
                }
                ops.push(line);
                ops.push(text);
            } else {
                proof {
                    assert(grid_price_ops(v, self.colour, self.label, interval as int, price as int)
                        == seq![line] + grid_price_ops(
                        v,
                        self.colour,
                        self.label,
                        interval as int,
                        price + interval,
                    ));
                    assert(ops@.push(line) + grid_price_ops(
                        v,
                        self.colour,
                        self.label,
                        interval as int,
                        price + interval,
                    ) =~= ops@ + (seq![line] + grid_price_ops(
                        v,
                        self.colour,
                        self.label,
                        interval as int,
                        price + interval,
                    )));
                }
                ops.push(line);
            }
            price = price + interval;
        }
        proof {
            assert(grid_price_ops(v, self.colour, self.label, interval as int, price as int)
                =~= Seq::<PaintOp>::empty());
            assert(ops@ + Seq::<PaintOp>::empty() =~= ops@);
        }
        let ghost price_part = ops@;
        // vertical time lines, from the window end backwards
        let ti = self.time_interval;
        let iters = (buffer.timeframe as u64) / (ti as u64) + 1;
        let mut time = buffer.timeframe;
        let mut k: u64 = 0;
        while k < iters
            invariant
                *buffer == *old(buffer),
                buffer.wf(),
                v == buffer.view(),
                1 <= ti <= TIME_LIMIT,
                ti == self.time_interval,
                0 < buffer.timeframe <= TIME_LIMIT,
                iters == buffer.timeframe as u64 / (ti as u64) + 1,
                0 <= k <= iters,
                time as int == buffer.timeframe - (k as int) * (ti as int),
                forall|j: int| 0 <= j < ops@.len() ==> op_ok(#[trigger] ops@[j]),
                price_part + grid_time_ops(v, self.colour, self.label, ti as int, iters as int, 0)
                    == ops@ + grid_time_ops(
                    v,
                    self.colour,
                    self.label,
                    ti as int,
                    iters as int,
                    k as int,
                ),
            decreases iters - k,
        {
            proof {
                vstd::arithmetic::div_mod::lemma_fundamental_div_mod(
                    buffer.timeframe as int,
                    ti as int,
                );
                vstd::arithmetic::div_mod::lemma_mod_bound(buffer.timeframe as int, ti as int);
                assert((k as int) * (ti as int) <= (buffer.timeframe as int / ti as int) * (
                ti as int)) by (nonlinear_arith)
                    requires
                        k <= buffer.timeframe as int / ti as int,
                        0 < ti,
                ;
            }
            let point = buffer.data_to_coords(buffer.min_price, time);
            let p1: (usize, usize) = (point.0, point.1 + 15);
            let p2 = buffer.data_to_coords(buffer.max_price, time);
            let line = PaintOp::Line { a: p1, b: p2, rgba: self.colour };
            let ghost rest = grid_time_ops(
                v,
                self.colour,
                self.label,
                ti as int,
                iters as int,
                k as int + 1,
            );
            if self.label {
                let lx = if p1.0 >= 10 {
                    p1.0 - 10
                } else {
                    0
                };
                let text = PaintOp::Text {
                    at: (lx, p1.1 + 2),
                    label: Label::Duration((buffer.timeframe - time) as u64),
                    rgba: self.colour,
                };
                proof {
                    assert(grid_time_ops(
                        v,
                        self.colour,
                        self.label,
                        ti as int,
                        iters as int,
                        k as int,
                    ) == seq![line, text] + rest);
                    assert(ops@.push(line).push(text) + rest =~= ops@ + (seq![line, text] + rest));
                }
                ops.push(line);
                ops.push(text);
            } else {
                proof {
                    assert(grid_time_ops(
                        v,
                        self.colour,
                        self.label,
                        ti as int,
                        iters as int,
                        k as int,
                    ) == seq![line] + rest);
                    assert(ops@.push(line) + rest =~= ops@ + (seq![line] + rest));
                }
                ops.push(line);
            }
            proof {
                assert((k as int + 1) * (ti as int) == (k as int) * (ti as int) + ti)
                    by (nonlinear_arith);
            }
            time = time - ti;
            k = k + 1;
        }
        proof {
            assert(grid_time_ops(v, self.colour, self.label, ti as int, iters as int, k as int)
                =~= Seq::<PaintOp>::empty());
            assert(ops@ + Seq::<PaintOp>::empty() =~= ops@);
        }
        buffer.paint_ops(&ops);
    }

    fn name(&self) -> (r: String) {
        String::from_str("CORE_GridLines()")
    }

    fn lore_colour(&self) -> (r: Option<u32>) {
        None
    }
}

/// The remainder of `n` divided by `d`, carrying the sign of `n`, as the
/// remainder operator of the reference machine does.
fn rem_trunc(n: i64, d: i64) -> (r: i64)
    requires
        1 <= d <= PRICE_LIMIT,
        -PRICE_LIMIT <= n <= PRICE_LIMIT,
    ensures
        r as int == spec_rem_trunc(n as int, d as int),
        -d < r < d,
{
    proof {
        if n >= 0 {
            vstd::arithmetic::div_mod::lemma_mod_bound(n as int, d as int);
        } else {
            vstd::arithmetic::div_mod::lemma_mod_bound(-(n as int), d as int);
        }
    }
    if n >= 0 {
        ((n as u64) % (d as u64)) as i64
    } else {
        -((((-n) as u64) % (d as u64)) as i64)
    }
}

} // verus!
