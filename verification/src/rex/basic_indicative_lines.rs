use vstd::prelude::*;
use vstd::string::StringExecFns;

use crate::buffer::view_point;
use crate::buffer::ChartBuffer;
use crate::buffer::ChartView;
use crate::data::OHLC;
use crate::painting::op_ok;
use crate::painting::Label;
use crate::painting::PaintOp;
use crate::rex::RendererExtension;
use crate::utils::aggregate;

verus! {

/// The display list of one horizontal reference line: a full-plot-width
/// line at the given price, and its outlined value label just right of the
/// plot area (clamped at the top edge).
pub open spec fn price_line_ops(v: ChartView, price: int, rgba: u32) -> Seq<PaintOp> {
    let p1 = view_point(v, price, 0);
    let p2 = view_point(v, price, v.timeframe);
    let ly: usize = if p2.1 >= 9 {
        (p2.1 - 9) as usize
    } else {
        0usize
    };
    seq![
        PaintOp::Line { a: p1, b: p2, rgba },
        PaintOp::TextOutline {
            at: ((p2.0 + 3) as usize, ly),
            label: Label::Signed(price as i64),
            rgba,
        },
    ]
}

/// Three horizontal reference lines: the series' high, its low, and its
/// last close, each labelled with its value.
#[derive(Clone, Copy, Debug)]
pub struct BasicIndicativeLines {
    /// Colour of the line at the series high.
    pub max_colour: u32,
    /// Colour of the line at the series low.
    pub min_colour: u32,
    /// Colour of the line at the last close.
    pub current_colour: u32,
}

impl BasicIndicativeLines {
    /// Reference lines with the given colours.
    pub fn new(max_colour: u32, min_colour: u32, current_colour: u32) -> (r:
        BasicIndicativeLines)
        ensures
            r.max_colour == max_colour,
            r.min_colour == min_colour,
            r.current_colour == current_colour,
            r.wf(),
    {
        BasicIndicativeLines { max_colour, min_colour, current_colour }
    }
}

impl RendererExtension for BasicIndicativeLines {
    open spec fn wf(&self) -> bool {
        true
    }

    open spec fn name_spec(&self) -> Seq<char> {
        "CORE_BasicIndicativeLines()"@
    }

    open spec fn lore_colour_spec(&self) -> Option<u32> {
        None
    }

    open spec fn painted(&self, pre: crate::buffer::ChartView, data: Seq<OHLC>) -> Seq<u8> {
        crate::painting::ops_bytes(
            pre.bytes,
            pre.width,
            pre.height,
            pre.background,
            price_line_ops(pre, crate::utils::spec_max_high(data), self.max_colour)
                + price_line_ops(pre, crate::utils::spec_min_low(data), self.min_colour)
                + price_line_ops(pre, data[data.len() - 1].c as int, self.current_colour),
        )
    }

    fn apply(&self, buffer: &mut ChartBuffer, data: &[OHLC]) {
        let ghost v = buffer.view();
        let agg = aggregate(data);
        let mut ops: Vec<PaintOp> = Vec::new();
        push_price_line(&mut ops, buffer, agg.h, self.max_colour);
        push_price_line(&mut ops, buffer, agg.l, self.min_colour);
        push_price_line(&mut ops, buffer, agg.c, self.current_colour);
        proof {
            assert(ops@ =~= price_line_ops(v, crate::utils::spec_max_high(data@), self.max_colour)
                + price_line_ops(v, crate::utils::spec_min_low(data@), self.min_colour)
                + price_line_ops(v, data@[data@.len() - 1].c as int, self.current_colour));
        }
        buffer.paint_ops(&ops);
    }

    fn name(&self) -> (r: String) {
        String::from_str("CORE_BasicIndicativeLines()")
    }

    fn lore_colour(&self) -> (r: Option<u32>) {
        None
    }
}

/// Append the display list of one labelled reference line.
fn push_price_line(ops: &mut Vec<PaintOp>, chart: &ChartBuffer, price: i64, rgba: u32)
    requires
        chart.wf(),
        price > i64::MIN,
    ensures
        final(ops)@ == old(ops)@ + price_line_ops(chart.view(), price as int, rgba),
        forall|j: int|
            old(ops)@.len() <= j < final(ops)@.len() ==> op_ok(#[trigger] final(ops)@[j]),
        forall|j: int| 0 <= j < old(ops)@.len() ==> final(ops)@[j] == old(ops)@[j],
{
    let p1 = chart.data_to_coords(price, 0);
    let p2 = chart.data_to_coords(price, chart.timeframe);
    let ly = if p2.1 >= 9 {
        p2.1 - 9
    } else {
        0
    };
    let line = PaintOp::Line { a: p1, b: p2, rgba };
    let label = PaintOp::TextOutline {
        at: (p2.0 + 3, ly),
        label: Label::Signed(price),
        rgba,
    };
    proof {
        assert(old(ops)@ + price_line_ops(chart.view(), price as int, rgba) =~= old(
            ops,
        )@.push(line).push(label));
    }
    ops.push(line);
    ops.push(label);
}

} // verus!
