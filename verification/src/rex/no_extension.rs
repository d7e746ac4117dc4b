use vstd::prelude::*;
use vstd::string::StringExecFns;

use crate::buffer::ChartBuffer;
use crate::data::OHLC;
use crate::rex::RendererExtension;

verus! {

/// The overlay that paints nothing: a placeholder configuration value.
#[derive(Clone, Copy, Debug, PartialEq, Eq, Structural)]
pub struct NoExtension;

impl RendererExtension for NoExtension {
    open spec fn wf(&self) -> bool {
        true
    }

    open spec fn name_spec(&self) -> Seq<char> {
        "NoExtension()"@
    }

    open spec fn lore_colour_spec(&self) -> Option<u32> {
        None
    }

    open spec fn painted(&self, pre: crate::buffer::ChartView, data: Seq<OHLC>) -> Seq<u8> {
        pre.bytes
    }

    fn apply(&self, buffer: &mut ChartBuffer, data: &[OHLC]) {
    }

    fn name(&self) -> (r: String) {
        String::from_str("NoExtension()")
    }

    fn lore_colour(&self) -> (r: Option<u32>) {
        None
    }
}

} // verus!
