use vstd::prelude::*;
use vstd::string::StringExecFns;
use vstd::string::StringSliceAdditionalSpecFns;

use crate::buffer::ChartBuffer;
use crate::data::OHLC;
use crate::rex::RendererExtension;

verus! {

/// A diagnostic overlay: paints a sample word twice, once opaque and once
/// half transparent, to exercise the glyph renderer and the blend.
#[derive(Clone, Copy, Debug)]
pub struct TestText;

impl RendererExtension for TestText {
    open spec fn wf(&self) -> bool {
        true
    }

    open spec fn name_spec(&self) -> Seq<char> {
        "TEST_Text()"@
    }

    open spec fn lore_colour_spec(&self) -> Option<u32> {
        None
    }

    open spec fn painted(&self, pre: crate::buffer::ChartView, data: Seq<OHLC>) -> Seq<u8> {
        let first = crate::painting::text_bytes(
            pre.bytes,
            pre.width,
            pre.height,
            (0usize, 0usize),
            "DANKMEME".spec_bytes(),
            0xFFFF00FF,
        );
        crate::painting::text_bytes(
            first,
            pre.width,
            pre.height,
            (0usize, 60usize),
            "DANKMEME".spec_bytes(),
            0xFFFF007F,
        )
    }

    fn apply(&self, buffer: &mut ChartBuffer, data: &[OHLC]) {
        buffer.text((0, 0), "DANKMEME", 0xFFFF00FF);
        buffer.text((0, 60), "DANKMEME", 0xFFFF007F);
    }

    fn name(&self) -> (r: String) {
        String::from_str("TEST_Text()")
    }

    fn lore_colour(&self) -> (r: Option<u32>) {
        None
    }
}

} // verus!
