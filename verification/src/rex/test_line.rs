use vstd::prelude::*;
use vstd::string::StringExecFns;

use crate::buffer::ChartBuffer;
use crate::data::OHLC;
use crate::rex::RendererExtension;

verus! {

/// A diagnostic overlay: draws the two diagonals and the frame of the
/// default-sized chart, to exercise the line primitive in every direction.
#[derive(Clone, Copy, Debug)]
pub struct TestLine;

impl RendererExtension for TestLine {
    open spec fn wf(&self) -> bool {
        true
    }

    open spec fn name_spec(&self) -> Seq<char> {
        "TEST_Line()"@
    }

    open spec fn lore_colour_spec(&self) -> Option<u32> {
        None
    }

    open spec fn painted(&self, pre: crate::buffer::ChartView, data: Seq<OHLC>) -> Seq<u8> {
        let b1 = crate::painting::line_bytes(
            pre.bytes,
            pre.width,
            pre.height,
            (0usize, 0usize),
            (1309usize, 649usize),
            0xFFFF00FF,
        );
        let b2 = crate::painting::line_bytes(
            b1,
            pre.width,
            pre.height,
            (0usize, 649usize),
            (1309usize, 0usize),
            0xFFFF00FF,
        );
        let b3 = crate::painting::line_bytes(
            b2,
            pre.width,
            pre.height,
            (0usize, 0usize),
            (0usize, 649usize),
            0xFFFF00FF,
        );
        let b4 = crate::painting::line_bytes(
            b3,
            pre.width,
            pre.height,
            (0usize, 649usize),
            (1309usize, 649usize),
            0xFFFF00FF,
        );
        let b5 = crate::painting::line_bytes(
            b4,
            pre.width,
            pre.height,
            (1309usize, 649usize),
            (1309usize, 0usize),
            0xFFFF00FF,
        );
        crate::painting::line_bytes(
            b5,
            pre.width,
            pre.height,
            (0usize, 0usize),
            (1309usize, 0usize),
            0xFFFF00FF,
        )
    }

    fn apply(&self, buffer: &mut ChartBuffer, data: &[OHLC]) {
        buffer.line((0, 0), (1309, 649), 0xFFFF00FF);
        buffer.line((0, 649), (1309, 0), 0xFFFF00FF);
        buffer.line((0, 0), (0, 649), 0xFFFF00FF);
        buffer.line((0, 649), (1309, 649), 0xFFFF00FF);
        buffer.line((1309, 649), (1309, 0), 0xFFFF00FF);
        buffer.line((0, 0), (1309, 0), 0xFFFF00FF);
    }

    fn name(&self) -> (r: String) {
        String::from_str("TEST_Line()")
    }

    fn lore_colour(&self) -> (r: Option<u32>) {
        None
    }
}

} // verus!
