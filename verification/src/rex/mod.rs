use vstd::prelude::*;

use crate::buffer::ChartBuffer;
use crate::buffer::ChartView;
use crate::data::candles_in_range;
use crate::data::OHLC;

pub mod basic_indicative_lines;
pub mod bollinger_bands;
pub mod dema;
pub mod ema;
pub mod grid_lines;
pub mod macd;
pub mod no_extension;
pub mod ohlc_candles;
pub mod rsi;
pub mod test_fill;
pub mod test_line;
pub mod test_text;
pub mod volume;

pub use basic_indicative_lines::BasicIndicativeLines;
pub use bollinger_bands::BollingerBands;
pub use dema::DEMA;
pub use ema::EMA;
pub use grid_lines::GridLines;
pub use macd::MACD;
pub use no_extension::NoExtension;
pub use ohlc_candles::OHLCCandles;
pub use rsi::RSI;
pub use test_fill::TestFill;
pub use test_line::TestLine;
pub use test_text::TestText;
pub use volume::Volume;

verus! {

/// What every overlay may assume when it is applied: a well-formed chart
/// and a non-empty candle series whose values lie in the supported window.
pub open spec fn apply_pre(buffer: &ChartBuffer, data: Seq<OHLC>) -> bool {
    &&& buffer.wf()
    &&& candles_in_range(data)
    &&& data.len() > 0
}

/// What every overlay guarantees: the chart stays well-formed and keeps its
/// geometry; it may only grow downward by attaching sub-panel strips, which
/// leave the original plot area untouched.
pub open spec fn apply_post(pre: &ChartBuffer, post: &ChartBuffer) -> bool {
    &&& post.wf()
    &&& post.raster.width == pre.raster.width
    &&& post.raster.height >= pre.raster.height
    &&& post.raster.background == pre.raster.background
    &&& post.margin.top == pre.margin.top
    &&& post.margin.left == pre.margin.left
    &&& post.margin.right == pre.margin.right
    &&& post.margin.bottom >= pre.margin.bottom
    &&& post.max_price == pre.max_price
    &&& post.min_price == pre.min_price
    &&& post.timeframe == pre.timeframe
    &&& post.plot_width() == pre.plot_width()
    &&& post.plot_height() == pre.plot_height()
}

/// A pluggable overlay: paints derived geometry onto the chart when
/// applied, names itself for legends, and may designate a legend colour.
pub trait RendererExtension: Sized {
    /// The overlay's configuration is usable.
    spec fn wf(&self) -> bool;

    /// The overlay's stable display name.
    spec fn name_spec(&self) -> Seq<char>;

    /// The overlay's legend colour, if it wants one shown.
    spec fn lore_colour_spec(&self) -> Option<u32>;

    /// The exact pixel bytes the overlay leaves behind, as a function of
    /// the chart it is given and the candle series; where the overlay
    /// appends a sub-panel, the strip's rows follow the chart's in the
    /// result.
    spec fn painted(&self, pre: ChartView, data: Seq<OHLC>) -> Seq<u8>;

    /// Paint the overlay onto the chart: the final bytes are exactly
    /// `painted`, and any growth goes to the bottom margin. Never fails:
    /// an overlay that cannot compute a value for some index skips
    /// drawing there.
    fn apply(&self, buffer: &mut ChartBuffer, data: &[OHLC])
        requires
            self.wf(),
            apply_pre(old(buffer), data@),
        ensures
            apply_post(old(buffer), final(buffer)),
            final(buffer).raster.bytes() == self.painted(old(buffer).view(), data@),
            final(buffer).margin.bottom + old(buffer).raster.spec_height() == old(
                buffer,
            ).margin.bottom + final(buffer).raster.spec_height(),
    ;

    fn name(&self) -> (r: String)
        ensures
            r@ == self.name_spec(),
    ;

    fn lore_colour(&self) -> (r: Option<u32>)
        ensures
            r == self.lore_colour_spec(),
    ;
}

/// The closed set of built-in overlays, as one value that render options
/// can hold.
pub enum Extension {
    GridLines(GridLines),
    OHLCCandles(OHLCCandles),
    BasicIndicativeLines(BasicIndicativeLines),
    BollingerBands(BollingerBands),
    Ema(EMA),
    Dema(DEMA),
    Macd(MACD),
    Rsi(RSI),
    Volume(Volume),
    NoExtension(NoExtension),
    TestFill(TestFill),
    TestLine(TestLine),
    TestText(TestText),
}

impl Extension {
    /// Whether this overlay's configuration is usable, decided at run
    /// time: exactly the well-formedness its `apply` demands. Every value
    /// built through the overlay constructors passes.
    pub fn well_formed(&self) -> (b: bool)
        ensures
            b == self.wf(),
    {
        match self {
            Extension::GridLines(e) => 1 <= e.price_interval && e.price_interval
                <= crate::data::PRICE_LIMIT && 1 <= e.time_interval && e.time_interval
                <= crate::buffer::TIME_LIMIT,
            Extension::OHLCCandles(e) => true,
            Extension::BasicIndicativeLines(e) => true,
            Extension::BollingerBands(e) => e.periods <= crate::rex::ema::MAX_PERIODS
                && e.standard_deviations <= 100,
            Extension::Ema(e) => 0 < e.sf_num && e.sf_num < e.sf_den && e.periods
                <= crate::rex::ema::MAX_PERIODS,
            Extension::Dema(e) => 0 < e.inner.sf_num && e.inner.sf_num < e.inner.sf_den
                && e.inner.periods <= crate::rex::ema::MAX_PERIODS,
            Extension::Macd(e) => 0 < e.sf_num && e.sf_num < e.sf_den,
            Extension::Rsi(e) => true,
            Extension::Volume(e) => true,
            Extension::NoExtension(e) => true,
            Extension::TestFill(e) => true,
            Extension::TestLine(e) => true,
            Extension::TestText(e) => true,
        }
    }
}

impl RendererExtension for Extension {
    open spec fn wf(&self) -> bool {
        match self {
            Extension::GridLines(e) => e.wf(),
            Extension::OHLCCandles(e) => e.wf(),
            Extension::BasicIndicativeLines(e) => e.wf(),
            Extension::BollingerBands(e) => e.wf(),
            Extension::Ema(e) => e.wf(),
            Extension::Dema(e) => e.wf(),
            Extension::Macd(e) => e.wf(),
            Extension::Rsi(e) => e.wf(),
            Extension::Volume(e) => e.wf(),
            Extension::NoExtension(e) => e.wf(),
            Extension::TestFill(e) => e.wf(),
            Extension::TestLine(e) => e.wf(),
            Extension::TestText(e) => e.wf(),
        }
    }

    open spec fn name_spec(&self) -> Seq<char> {
        match self {
            Extension::GridLines(e) => e.name_spec(),
            Extension::OHLCCandles(e) => e.name_spec(),
            Extension::BasicIndicativeLines(e) => e.name_spec(),
            Extension::BollingerBands(e) => e.name_spec(),
            Extension::Ema(e) => e.name_spec(),
            Extension::Dema(e) => e.name_spec(),
            Extension::Macd(e) => e.name_spec(),
            Extension::Rsi(e) => e.name_spec(),
            Extension::Volume(e) => e.name_spec(),
            Extension::NoExtension(e) => e.name_spec(),
            Extension::TestFill(e) => e.name_spec(),
            Extension::TestLine(e) => e.name_spec(),
            Extension::TestText(e) => e.name_spec(),
        }
    }

    open spec fn painted(&self, pre: ChartView, data: Seq<OHLC>) -> Seq<u8> {
        match self {
            Extension::GridLines(e) => e.painted(pre, data),
            Extension::OHLCCandles(e) => e.painted(pre, data),
            Extension::BasicIndicativeLines(e) => e.painted(pre, data),
            Extension::BollingerBands(e) => e.painted(pre, data),
            Extension::Ema(e) => e.painted(pre, data),
            Extension::Dema(e) => e.painted(pre, data),
            Extension::Macd(e) => e.painted(pre, data),
            Extension::Rsi(e) => e.painted(pre, data),
            Extension::Volume(e) => e.painted(pre, data),
            Extension::NoExtension(e) => e.painted(pre, data),
            Extension::TestFill(e) => e.painted(pre, data),
            Extension::TestLine(e) => e.painted(pre, data),
            Extension::TestText(e) => e.painted(pre, data),
        }
    }

    open spec fn lore_colour_spec(&self) -> Option<u32> {
        match self {
            Extension::GridLines(e) => e.lore_colour_spec(),
            Extension::OHLCCandles(e) => e.lore_colour_spec(),
            Extension::BasicIndicativeLines(e) => e.lore_colour_spec(),
            Extension::BollingerBands(e) => e.lore_colour_spec(),
            Extension::Ema(e) => e.lore_colour_spec(),
            Extension::Dema(e) => e.lore_colour_spec(),
            Extension::Macd(e) => e.lore_colour_spec(),
            Extension::Rsi(e) => e.lore_colour_spec(),
            Extension::Volume(e) => e.lore_colour_spec(),
            Extension::NoExtension(e) => e.lore_colour_spec(),
            Extension::TestFill(e) => e.lore_colour_spec(),
            Extension::TestLine(e) => e.lore_colour_spec(),
            Extension::TestText(e) => e.lore_colour_spec(),
        }
    }

    fn apply(&self, buffer: &mut ChartBuffer, data: &[OHLC]) {
        match self {
            Extension::GridLines(e) => e.apply(buffer, data),
            Extension::OHLCCandles(e) => e.apply(buffer, data),
            Extension::BasicIndicativeLines(e) => e.apply(buffer, data),
            Extension::BollingerBands(e) => e.apply(buffer, data),
            Extension::Ema(e) => e.apply(buffer, data),
            Extension::Dema(e) => e.apply(buffer, data),
            Extension::Macd(e) => e.apply(buffer, data),
            Extension::Rsi(e) => e.apply(buffer, data),
            Extension::Volume(e) => e.apply(buffer, data),
            Extension::NoExtension(e) => e.apply(buffer, data),
            Extension::TestFill(e) => e.apply(buffer, data),
            Extension::TestLine(e) => e.apply(buffer, data),
            Extension::TestText(e) => e.apply(buffer, data),
        }
    }

    fn name(&self) -> (r: String) {
        match self {
            Extension::GridLines(e) => e.name(),
            Extension::OHLCCandles(e) => e.name(),
            Extension::BasicIndicativeLines(e) => e.name(),
            Extension::BollingerBands(e) => e.name(),
            Extension::Ema(e) => e.name(),
            Extension::Dema(e) => e.name(),
            Extension::Macd(e) => e.name(),
            Extension::Rsi(e) => e.name(),
            Extension::Volume(e) => e.name(),
            Extension::NoExtension(e) => e.name(),
            Extension::TestFill(e) => e.name(),
            Extension::TestLine(e) => e.name(),
            Extension::TestText(e) => e.name(),
        }
    }

    fn lore_colour(&self) -> (r: Option<u32>) {
        match self {
            Extension::GridLines(e) => e.lore_colour(),
            Extension::OHLCCandles(e) => e.lore_colour(),
            Extension::BasicIndicativeLines(e) => e.lore_colour(),
            Extension::BollingerBands(e) => e.lore_colour(),
            Extension::Ema(e) => e.lore_colour(),
            Extension::Dema(e) => e.lore_colour(),
            Extension::Macd(e) => e.lore_colour(),
            Extension::Rsi(e) => e.lore_colour(),
            Extension::Volume(e) => e.lore_colour(),
            Extension::NoExtension(e) => e.lore_colour(),
            Extension::TestFill(e) => e.lore_colour(),
            Extension::TestLine(e) => e.lore_colour(),
            Extension::TestText(e) => e.lore_colour(),
        }
    }
}

} // verus!
