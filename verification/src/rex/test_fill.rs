use vstd::prelude::*;
use vstd::string::StringExecFns;

use crate::buffer::ChartBuffer;
use crate::data::OHLC;
use crate::rex::RendererExtension;

verus! {

/// A diagnostic overlay: fills a fixed square in one colour, to exercise
/// the rectangle primitive and the alpha blend.
#[derive(Clone, Copy, Debug)]
pub struct TestFill {
    /// The fill colour.
    pub colour: u32,
}

impl RendererExtension for TestFill {
    open spec fn wf(&self) -> bool {
        true
    }

    open spec fn name_spec(&self) -> Seq<char> {
        "TEST_Fill()"@
    }

    open spec fn lore_colour_spec(&self) -> Option<u32> {
        None
    }

    open spec fn painted(&self, pre: crate::buffer::ChartView, data: Seq<OHLC>) -> Seq<u8> {
        crate::painting::rect_bytes(pre.bytes, pre.width, 0, 0, 200, 200, self.colour)
    }

    fn apply(&self, buffer: &mut ChartBuffer, data: &[OHLC]) {
        buffer.rect(0, 0, 200, 200, self.colour);
    }

    fn name(&self) -> (r: String) {
        String::from_str("TEST_Fill()")
    }

    fn lore_colour(&self) -> (r: Option<u32>) {
        None
    }
}

} // verus!
