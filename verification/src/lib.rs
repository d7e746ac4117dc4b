//! Candlestick chart renderer.
//!
//! Turns a time-ordered series of price bars (open/high/low/close, optional
//! volume) into a raster RGB image: a coordinate mapper from price/time space
//! to pixel space, low-level painting primitives with alpha blending, and a
//! set of pluggable indicator overlays (grid lines, candle bodies, moving
//! averages, oscillators, bands, volume strips).
//!
//! All data values are integers in caller-chosen fixed-point units, and every
//! rounding step is integer floor/truncation, chosen once and documented at
//! the function it affects.

use vstd::prelude::*;
use vstd::string::StringExecFns;
use vstd::string::StringSliceAdditionalSpecFns;

pub mod buffer;
pub mod data;
pub mod fonts;
pub mod options;
pub mod painting;
pub mod rex;
pub mod utils;

pub use data::Candle;
pub use data::OHLC;

use crate::buffer::ChartBuffer;
use crate::buffer::ChartView;
use crate::buffer::Margin;
use crate::buffer::TIME_LIMIT;
use crate::data::candles_in_range;
use crate::data::PRICE_LIMIT;
use crate::rex::Extension;
use crate::rex::RendererExtension;

verus! {

/// Why a candle series was rejected before anything was painted: some
/// candle's open or close lies outside its own low/high band, or the band
/// itself is inverted.
#[derive(Clone, Copy, Debug, PartialEq, Eq, Structural)]
pub enum ValidationError {
    /// The opening value is higher than the high value.
    OpenAboveHigh,
    /// The closing value is higher than the high value.
    CloseAboveHigh,
    /// The low value is higher than the high value.
    LowAboveHigh,
    /// The opening value is lower than the low value.
    OpenBelowLow,
    /// The closing value is lower than the low value.
    CloseBelowLow,
}

impl ValidationError {
    /// The human-readable description of the rejection.
    pub open spec fn message_spec(&self) -> Seq<char> {
        match self {
            ValidationError::OpenAboveHigh => "Opening value is higher than high value."@,
            ValidationError::CloseAboveHigh => "Closing value is higher than high value."@,
            ValidationError::LowAboveHigh => "Low value is higher than high value."@,
            ValidationError::OpenBelowLow => "Opening value is lower than low value."@,
            ValidationError::CloseBelowLow => "Closing value is lower than low value."@,
        }
    }

    /// The human-readable description of the rejection.
    pub fn message(&self) -> (r: &'static str)
        ensures
            r@ == self.message_spec(),
    {
        match self {
            ValidationError::OpenAboveHigh => "Opening value is higher than high value.",
            ValidationError::CloseAboveHigh => "Closing value is higher than high value.",
            ValidationError::LowAboveHigh => "Low value is higher than high value.",
            ValidationError::OpenBelowLow => "Opening value is lower than low value.",
            ValidationError::CloseBelowLow => "Closing value is lower than low value.",
        }
    }
}

/// Why a render request could not be set up: a misuse of the renderer,
/// distinct from malformed candle data.
#[derive(Clone, Copy, Debug, PartialEq, Eq, Structural)]
pub enum PrecondError {
    /// The price window is empty or inverted: no vertical mapping exists.
    InvertedPriceRange,
    /// The time window is not positive.
    NonPositiveTimeframe,
    /// The margins leave no plot area inside the image.
    MarginsTooLarge,
    /// The image dimensions exceed the supported size.
    DimensionsTooLarge,
    /// A price, volume or interval lies outside the supported window.
    ValueOutOfRange,
    /// The candle series is empty: there is nothing to size the axes by.
    EmptyData,
}

/// The first rule the candle breaks, if any, checked in a fixed order:
/// open above high, close above high, low above high, open below low,
/// close below low.
pub open spec fn candle_violation(c: OHLC) -> Option<ValidationError> {
    if c.o > c.h {
        Some(ValidationError::OpenAboveHigh)
    } else if c.c > c.h {
        Some(ValidationError::CloseAboveHigh)
    } else if c.l > c.h {
        Some(ValidationError::LowAboveHigh)
    } else if c.o < c.l {
        Some(ValidationError::OpenBelowLow)
    } else if c.c < c.l {
        Some(ValidationError::CloseBelowLow)
    } else {
        None
    }
}

/// The candle keeps its own invariant: `low <= open, close <= high`.
pub open spec fn candle_valid(c: OHLC) -> bool {
    candle_violation(c) is None
}

/// The violation of the first invalid candle of the series, if any.
pub open spec fn first_violation(s: Seq<OHLC>) -> Option<ValidationError>
    decreases s.len(),
{
    if s.len() == 0 {
        None
    } else if candle_violation(s[0]) is Some {
        candle_violation(s[0])
    } else {
        first_violation(s.skip(1))
    }
}

/// Check every candle against `low <= open, close <= high`, in order, and
/// report the first violation; a series with no violation passes.
pub fn validate(data: &Vec<OHLC>) -> (r: Result<(), ValidationError>)
    ensures
        match r {
            Ok(()) => first_violation(data@) is None,
            Err(e) => first_violation(data@) == Some(e),
        },
        (r is Ok) <==> (forall|i: int|
            0 <= i < data@.len() ==> candle_valid(#[trigger] data@[i])),
{
    let n = data.len();
    let mut i: usize = 0;
    proof {
        assert(data@.skip(0) =~= data@);
    }
    while i < n
        invariant
            0 <= i <= n,
            n == data@.len(),
            first_violation(data@) == first_violation(data@.skip(i as int)),
            forall|j: int| 0 <= j < i ==> candle_valid(#[trigger] data@[j]),
        decreases n - i,
    {
        let elem = &data[i];
        let open = elem.o;
        let high = elem.h;
        let close = elem.c;
        let low = elem.l;
        proof {
            assert(data@.skip(i as int)[0] == data@[i as int]);
            assert(data@.skip(i as int).skip(1) =~= data@.skip(i as int + 1));
        }
        if open > high {
            return Err(ValidationError::OpenAboveHigh);
        } else if close > high {
            return Err(ValidationError::CloseAboveHigh);
        } else if low > high {
            return Err(ValidationError::LowAboveHigh);
        } else if open < low {
            return Err(ValidationError::OpenBelowLow);
        } else if close < low {
            return Err(ValidationError::CloseBelowLow);
        }
        i = i + 1;
    }
    proof {
        assert(data@.skip(n as int) =~= Seq::<OHLC>::empty());
    }
    Ok(())
}

/// Why a render call produced no image: the candle data broke a validation
/// rule, or the request itself misused the renderer.
#[derive(Clone, Copy, Debug, PartialEq, Eq, Structural)]
pub enum RenderError {
    /// A candle broke the `low <= open, close <= high` rule.
    Validation(ValidationError),
    /// The request misused the renderer: empty data, out-of-range values,
    /// or a degenerate price window.
    Precondition(PrecondError),
}

/// Chart configuration: colours, the time each candle covers, the grid
/// intervals, and the overlays to apply, mutated through the methods.
pub struct OHLCRenderOptions {
    /// Title of the chart.
    pub title: String,
    /// Colour for the title of the chart.
    pub title_colour: u32,
    /// Background tint of the entire chart.
    pub background_colour: u32,
    /// Colour for the current-value line across the chart.
    pub current_value_colour: u32,
    /// The amount of time, in seconds, each candle represents.
    pub time_units: u64,
    /// Colour for axis labels and grid lines.
    pub line_colour: u32,
    /// Interval of the horizontal grid lines, in price units.
    pub price_line_interval: i64,
    /// Interval of the vertical grid lines, in candles.
    pub time_line_interval: i64,
    /// Colour for falling candles.
    pub down_colour: u32,
    /// Colour for rising candles.
    pub up_colour: u32,
    /// Additional rendering overlays, applied in order.
    pub render_extensions: Vec<Extension>,
}

impl OHLCRenderOptions {
    /// The configuration is usable: the intervals and candle length are
    /// positive and inside the supported window, and every overlay's own
    /// configuration is usable. Holds for every configuration built
    /// through `new` and the setter methods.
    pub open spec fn wf(&self) -> bool {
        &&& 1 <= self.price_line_interval <= PRICE_LIMIT
        &&& 1 <= self.time_line_interval <= TIME_LIMIT
        &&& 1 <= self.time_units <= TIME_LIMIT as u64
        &&& forall|i: int|
            0 <= i < self.render_extensions@.len() ==> (
            #[trigger] self.render_extensions@[i]).wf()
    }

    /// A configuration with default parameters: an hour per candle, a
    /// light grey background, and no overlays.
    pub fn new() -> (r: OHLCRenderOptions)
        ensures
            r.wf(),
            r.title@ == Seq::<char>::empty(),
            r.title_colour == 0,
            r.background_colour == 0xDDDDDDFF,
            r.current_value_colour == 0x2E44EAFF,
            r.time_units == 3600,
            r.line_colour == 0xFFFFFFAA,
            r.price_line_interval == 1,
            r.time_line_interval == 24,
            r.down_colour == 0xD33040FF,
            r.up_colour == 0x27A819FF,
            r.render_extensions@.len() == 0,
    {
        OHLCRenderOptions {
            title: String::new(),
            title_colour: 0,
            background_colour: 0xDDDDDDFF,
            current_value_colour: 0x2E44EAFF,
            // default is 1 hour
            time_units: 3600,
            line_colour: 0xFFFFFFAA,
            price_line_interval: 1,
            time_line_interval: 24,
            down_colour: 0xD33040FF,
            up_colour: 0x27A819FF,
            render_extensions: Vec::new(),
        }
    }

    /// Set the chart title and its colour.
    pub fn title(&mut self, title: &str, colour: u32)
        ensures
            final(self).title@ == title@,
            final(self).title_colour == colour,
            unchanged_but_title(old(self), final(self)),
    {
        self.title = String::from_str(title);
        self.title_colour = colour;
    }

    /// Set the current-value, falling and rising colours.
    pub fn indicator_colours(&mut self, current_val: u32, down: u32, up: u32)
        ensures
            final(self).current_value_colour == current_val,
            final(self).down_colour == down,
            final(self).up_colour == up,
            unchanged_but_indicators(old(self), final(self)),
    {
        self.current_value_colour = current_val;
        self.down_colour = down;
        self.up_colour = up;
    }

    /// Set the grid colour and intervals: horizontal lines every
    /// `price_interval` price units, vertical lines every `time_interval`
    /// candles. The intervals must be positive and inside the supported
    /// window; a zero interval would place infinitely many lines.
    pub fn line(&mut self, colour: u32, price_interval: i64, time_interval: u64)
        requires
            1 <= price_interval <= PRICE_LIMIT,
            1 <= time_interval <= TIME_LIMIT as u64,
        ensures
            final(self).line_colour == colour,
            final(self).price_line_interval == price_interval,
            final(self).time_line_interval == time_interval,
            unchanged_but_line(old(self), final(self)),
    {
        self.line_colour = colour;
        self.price_line_interval = price_interval;
        self.time_line_interval = time_interval as i64;
    }

    /// Set the background colour.
    pub fn background_colour(&mut self, colour: u32)
        ensures
            final(self).background_colour == colour,
            unchanged_but_background(old(self), final(self)),
    {
        self.background_colour = colour;
    }

    /// Set the amount of time, in seconds, each candle represents. Must be
    /// positive and inside the supported window.
    pub fn time_units(&mut self, time_units: u64)
        requires
            1 <= time_units <= TIME_LIMIT as u64,
        ensures
            final(self).time_units == time_units,
            unchanged_but_time_units(old(self), final(self)),
    {
        self.time_units = time_units;
    }

    /// Append one overlay to the list applied after the base layers.
    pub fn add_extension(&mut self, extension: Extension)
        requires
            extension.wf(),
        ensures
            final(self).render_extensions@ == old(self).render_extensions@.push(extension),
            unchanged_but_extensions(old(self), final(self)),
    {
        self.render_extensions.push(extension);
    }

    /// Append several overlays, in order.
    pub fn add_extensions(&mut self, extensions: Vec<Extension>)
        requires
            forall|i: int| 0 <= i < extensions@.len() ==> (#[trigger] extensions@[i]).wf(),
        ensures
            final(self).render_extensions@ == old(self).render_extensions@ + extensions@,
            unchanged_but_extensions(old(self), final(self)),
    {
        let mut extensions = extensions;
        self.render_extensions.append(&mut extensions);
    }

    /// Render the chart into a pixel buffer: validate the candles, size
    /// the axes by their aggregate, paint the grid, the candle bodies and
    /// the reference lines, the title, and then each configured overlay in
    /// order. Succeeds exactly on a non-empty series of valid, in-range
    /// candles whose prices are not all one value and whose total time
    /// span stays inside the supported window.
    pub fn render_to_buffer(&self, data: &Vec<OHLC>) -> (r: Result<ChartBuffer, RenderError>)
        requires
            self.wf(),
        ensures
            match r {
                Ok(chart) => {
                    &&& first_violation(data@) is None
                    &&& candles_in_range(data@)
                    &&& data@.len() > 0
                    &&& chart.wf()
                    &&& chart.raster.spec_width() == 1310
                    &&& chart.raster.spec_height() >= 650
                    &&& chart.margin.top == 60
                    &&& chart.margin.left == 12
                    &&& chart.margin.right == 113
                    &&& chart.max_price == crate::utils::spec_max_high(data@)
                    &&& chart.min_price == crate::utils::spec_min_low(data@)
                    &&& chart.timeframe == self.time_units * data@.len()
                    &&& chart.view() == spec_render_view(self, data@)
                },
                Err(RenderError::Validation(e)) => first_violation(data@) == Some(e),
                Err(RenderError::Precondition(PrecondError::ValueOutOfRange)) => first_violation(
                    data@,
                ) is None && (!candles_in_range(data@) || (data@.len() > 0 && self.time_units
                    * data@.len() > TIME_LIMIT)),
                Err(RenderError::Precondition(PrecondError::EmptyData)) => first_violation(data@)
                    is None && candles_in_range(data@) && data@.len() == 0,
                Err(RenderError::Precondition(PrecondError::InvertedPriceRange)) =>
                    first_violation(data@) is None && candles_in_range(data@) && data@.len() > 0
                    && crate::utils::spec_max_high(data@) <= crate::utils::spec_min_low(data@),
                Err(_) => false,
            },
            (r is Ok) <==> (first_violation(data@) is None && candles_in_range(data@)
                && data@.len() > 0 && self.time_units * data@.len() <= TIME_LIMIT
                && crate::utils::spec_max_high(data@) > crate::utils::spec_min_low(data@)),
    {
        let checked = validate(data);
        if let Err(e) = checked {
            return Err(RenderError::Validation(e));
        }
        proof {
            assert(checked is Ok);
        }
        // every value must lie inside the supported window
        let n = data.len();
        let mut i: usize = 0;
        while i < n
            invariant
                n == data@.len(),
                0 <= i <= n,
                first_violation(data@) is None,
                forall|j: int| 0 <= j < i ==> crate::data::in_price_range(#[trigger] data@[j]),
            decreases n - i,
        {
            let c = &data[i];
            let volume_ok = match c.bv {
                Some(b) => 0 <= b && b <= crate::data::PRICE_LIMIT,
                None => true,
            };
            if c.o > PRICE_LIMIT || c.o < -PRICE_LIMIT || c.h > PRICE_LIMIT || c.h < -PRICE_LIMIT
                || c.l > PRICE_LIMIT || c.l < -PRICE_LIMIT || c.c > PRICE_LIMIT || c.c
                < -PRICE_LIMIT || c.v < 0 || c.v > PRICE_LIMIT || !volume_ok {
                proof {
                    assert(!crate::data::in_price_range(data@[i as int]));
                }
                return Err(RenderError::Precondition(PrecondError::ValueOutOfRange));
            }
            i = i + 1;
        }
        if n == 0 {
            return Err(RenderError::Precondition(PrecondError::EmptyData));
        }
        // the whole time window must stay in range
        proof {
            assert((self.time_units as int) * (n as int) < 0x100000000000000000000000000000000)
                by (nonlinear_arith)
                requires
                    0 <= self.time_units <= 0xFFFF_FFFF_FFFF_FFFF,
                    0 <= n <= 0xFFFF_FFFF_FFFF_FFFF,
            ;
        }
        let span: u128 = (self.time_units as u128) * (n as u128);
        if span > TIME_LIMIT as u128 {
            return Err(RenderError::Precondition(PrecondError::ValueOutOfRange));
        }
        let timeframe = span as i64;
        proof {
            assert(timeframe >= 1) by (nonlinear_arith)
                requires
                    timeframe == (self.time_units as int) * (n as int),
                    1 <= self.time_units,
                    1 <= n,
            ;
        }
        let ohlc_of_set = crate::utils::aggregate(data.as_slice());
        if ohlc_of_set.h <= ohlc_of_set.l {
            return Err(RenderError::Precondition(PrecondError::InvertedPriceRange));
        }
        let margin = Margin { top: 60, bottom: 35, left: 12, right: 113 };
        let width: usize = 1310;
        let height: usize = 650;
        let made = ChartBuffer::new(
            width,
            height,
            margin,
            ohlc_of_set.h,
            ohlc_of_set.l,
            timeframe,
            self.background_colour,
        );
        let mut chart = match made {
            Ok(c) => c,
            Err(e) => {
                proof {
                    assert(false);
                }
                return Err(RenderError::Precondition(e));
            },
        };
        let ghost v0 = spec_fresh_view(self, data@);
        proof {
            assert(chart.view() == v0);
        }
        // the time interval of the grid, in seconds, clamped to the window cap
        proof {
            assert((self.time_line_interval as int) * (self.time_units as int)
                < 0x100000000000000000000000000000000) by (nonlinear_arith)
                requires
                    0 <= self.time_line_interval <= 0xFFFF_FFFF_FFFF_FFFF,
                    0 <= self.time_units <= 0xFFFF_FFFF_FFFF_FFFF,
            ;
        }
        let grid_time: u128 = (self.time_line_interval as u128) * (self.time_units as u128);
        let grid_time_interval: i64 = if grid_time > TIME_LIMIT as u128 {
            TIME_LIMIT
        } else {
            proof {
                assert((self.time_line_interval as int) * (self.time_units as int) >= 1)
                    by (nonlinear_arith)
                    requires
                        1 <= self.time_line_interval,
                        1 <= self.time_units,
                ;
            }
            grid_time as i64
        };
        let grid = crate::rex::GridLines::new(
            self.line_colour,
            true,
            self.price_line_interval,
            grid_time_interval,
        );
        proof {
            assert(grid == spec_base_grid(self));
        }
        grid.apply(&mut chart, data.as_slice());
        let ghost v1 = view_after_paint(v0, spec_base_grid(self).painted(v0, data@));
        proof {
            lemma_after_paint_view(v0, &chart);
        }
        let candles = crate::rex::OHLCCandles::new(self.up_colour, self.down_colour);
        candles.apply(&mut chart, data.as_slice());
        let ghost v2 = view_after_paint(v1, candles.painted(v1, data@));
        proof {
            lemma_after_paint_view(v1, &chart);
        }
        let lines = crate::rex::BasicIndicativeLines::new(
            self.up_colour,
            self.down_colour,
            self.current_value_colour,
        );
        lines.apply(&mut chart, data.as_slice());
        let ghost v3 = view_after_paint(v2, lines.painted(v2, data@));
        proof {
            lemma_after_paint_view(v2, &chart);
        }
        let title = self.title.as_str();
        chart.text((8, 8), title, self.title_colour);
        let ghost vbase = spec_base_view(self, data@);
        proof {
            lemma_after_paint_view(v3, &chart);
            assert(title.spec_bytes() == vstd::utf8::encode_utf8(self.title@));
            assert(chart.view() == vbase);
        }
        // the configured overlays, each with a legend entry when it wants one
        let mut lore_y: usize = chart.margin.top + 4;
        let lore_x = chart.margin.left + 4;
        let m = self.render_extensions.len();
        let mut k: usize = 0;
        while k < m
            invariant
                self.wf(),
                m == self.render_extensions@.len(),
                0 <= k <= m,
                chart.wf(),
                chart.raster.spec_width() == 1310,
                chart.raster.spec_height() >= 650,
                chart.margin.top == 60,
                chart.margin.left == 12,
                chart.margin.right == 113,
                chart.max_price == crate::utils::spec_max_high(data@),
                chart.min_price == crate::utils::spec_min_low(data@),
                chart.timeframe == self.time_units * data@.len(),
                candles_in_range(data@),
                data@.len() > 0,
                lore_x == 16,
                lore_y <= crate::painting::MAX_COORD,
                vbase == spec_base_view(self, data@),
                (chart.view(), lore_y as int) == spec_overlays(
                    self.render_extensions@,
                    vbase,
                    data@,
                    k as int,
                ),
            decreases m - k,
        {
            let ghost before = chart.view();
            let ext = &self.render_extensions[k];
            ext.apply(&mut chart, data.as_slice());
            let ghost v2 = view_after_paint(before, ext.painted(before, data@));
            proof {
                lemma_after_paint_view(before, &chart);
            }
            let lore = ext.lore_colour();
            match lore {
                Some(rgba) => {
                    if lore_y <= crate::painting::MAX_COORD - 17 {
                        let name = ext.name();
                        let caption = name.as_str();
                        chart.text_with_background(
                            (lore_x, lore_y),
                            caption,
                            rgba,
                            0x7F7F7F7F,
                        );
                        proof {
                            assert(caption.spec_bytes() == vstd::utf8::encode_utf8(
                                ext.name_spec(),
                            ));
                            lemma_after_paint_view(v2, &chart);
                        }
                        // move down one legend row
                        lore_y = lore_y + 17;
                    }
                },
                None => {},
            }
            k = k + 1;
            proof {
                assert((chart.view(), lore_y as int) == spec_overlay_step(
                    self.render_extensions@[k - 1],
                    spec_overlays(self.render_extensions@, vbase, data@, k - 1).0,
                    spec_overlays(self.render_extensions@, vbase, data@, k - 1).1,
                    data@,
                ));
            }
        }
        Ok(chart)
    }
}

/// The chart view after one more paint pass over its bytes: the height
/// and the bottom margin follow the buffer's new length, everything else
/// stays.
pub open spec fn view_after_paint(v: ChartView, b: Seq<u8>) -> ChartView {
    let h2 = b.len() as int / (v.width * 3);
    ChartView {
        width: v.width,
        height: h2,
        background: v.background,
        margin_top: v.margin_top,
        margin_bottom: v.margin_bottom + h2 - v.height,
        margin_left: v.margin_left,
        margin_right: v.margin_right,
        max_price: v.max_price,
        min_price: v.min_price,
        timeframe: v.timeframe,
        bytes: b,
    }
}

/// The fresh chart the renderer allocates: fixed size and margins, axes
/// sized by the series' aggregate, cleared to the background colour.
pub open spec fn spec_fresh_view(o: &OHLCRenderOptions, data: Seq<OHLC>) -> ChartView {
    ChartView {
        width: 1310,
        height: 650,
        background: o.background_colour | 0xFF,
        margin_top: 60,
        margin_bottom: 35,
        margin_left: 12,
        margin_right: 113,
        max_price: crate::utils::spec_max_high(data),
        min_price: crate::utils::spec_min_low(data),
        timeframe: o.time_units * data.len(),
        bytes: crate::painting::fill_bytes((1310 * 650) as int, o.background_colour),
    }
}

/// The grid the renderer draws first: the configured colour and price
/// interval, labels on, the time interval scaled to seconds per candle
/// and clamped to the supported window.
pub open spec fn spec_base_grid(o: &OHLCRenderOptions) -> crate::rex::GridLines {
    crate::rex::GridLines {
        colour: o.line_colour,
        label: true,
        price_interval: o.price_line_interval,
        time_interval: if o.time_line_interval * o.time_units > TIME_LIMIT {
            TIME_LIMIT as i64
        } else {
            (o.time_line_interval * o.time_units) as i64
        },
    }
}

/// The chart view after the base layers: the grid, the candle bodies, the
/// three reference lines, and the title.
pub open spec fn spec_base_view(o: &OHLCRenderOptions, data: Seq<OHLC>) -> ChartView {
    let v0 = spec_fresh_view(o, data);
    let v1 = view_after_paint(v0, spec_base_grid(o).painted(v0, data));
    let v2 = view_after_paint(
        v1,
        (crate::rex::OHLCCandles { up_colour: o.up_colour, down_colour: o.down_colour }).painted(
            v1,
            data,
        ),
    );
    let v3 = view_after_paint(
        v2,
        (crate::rex::BasicIndicativeLines {
            max_colour: o.up_colour,
            min_colour: o.down_colour,
            current_colour: o.current_value_colour,
        }).painted(v2, data),
    );
    view_after_paint(
        v3,
        crate::painting::text_bytes(
            v3.bytes,
            v3.width,
            v3.height,
            (8usize, 8usize),
            vstd::utf8::encode_utf8(o.title@),
            o.title_colour,
        ),
    )
}

/// One overlay of the pipeline: its painting, then its legend entry when
/// it designates a colour and the legend column still has room.
pub open spec fn spec_overlay_step(e: Extension, v: ChartView, lore_y: int, data: Seq<OHLC>) -> (
    ChartView,
    int,
) {
    let v2 = view_after_paint(v, e.painted(v, data));
    match e.lore_colour_spec() {
        Some(rgba) => if lore_y <= crate::painting::MAX_COORD - 17 {
            let name = vstd::utf8::encode_utf8(e.name_spec());
            let at: crate::painting::Point = ((v2.margin_left + 4) as usize, lore_y as usize);
            let b = crate::painting::text_bytes(
                crate::painting::backing_bytes(
                    v2.bytes,
                    v2.width,
                    at,
                    name.len() as int,
                    0x7F7F7F7F,
                ),
                v2.width,
                v2.height,
                at,
                name,
                rgba,
            );
            (view_after_paint(v2, b), lore_y + 17)
        } else {
            (v2, lore_y)
        },
        None => (v2, lore_y),
    }
}

/// The chart and legend cursor after the first `k` configured overlays.
pub open spec fn spec_overlays(exts: Seq<Extension>, v: ChartView, data: Seq<OHLC>, k: int) -> (
    ChartView,
    int,
)
    decreases k,
{
    if k <= 0 {
        (v, v.margin_top + 4)
    } else {
        let st = spec_overlays(exts, v, data, k - 1);
        spec_overlay_step(exts[k - 1], st.0, st.1, data)
    }
}

/// The finished chart: the base layers, then every configured overlay in
/// order, each with its legend row.
pub open spec fn spec_render_view(o: &OHLCRenderOptions, data: Seq<OHLC>) -> ChartView {
    spec_overlays(
        o.render_extensions@,
        spec_base_view(o, data),
        data,
        o.render_extensions@.len() as int,
    ).0
}

/// A well-formed chart's view is exactly the view after painting its own
/// bytes over a view that matches it everywhere else.
proof fn lemma_after_paint_view(prev: ChartView, c: &ChartBuffer)
    requires
        c.wf(),
        prev.width == c.raster.spec_width() as int,
        prev.background == c.raster.spec_background(),
        prev.margin_top == c.margin.top as int,
        prev.margin_left == c.margin.left as int,
        prev.margin_right == c.margin.right as int,
        prev.max_price == c.max_price as int,
        prev.min_price == c.min_price as int,
        prev.timeframe == c.timeframe as int,
        prev.margin_bottom + c.raster.spec_height() as int == c.margin.bottom as int
            + prev.height,
    ensures
        c.view() == view_after_paint(prev, c.raster.bytes()),
{
    let w = prev.width;
    let h = c.raster.spec_height() as int;
    assert(0 < w);
    vstd::arithmetic::div_mod::lemma_div_multiples_vanish(h, w * 3);
    assert(w * h * 3 == (w * 3) * h) by (nonlinear_arith);
    assert(c.raster.bytes().len() == w * h * 3);
    assert(c.raster.bytes().len() as int / (w * 3) == h);
}

/// Nothing but the title fields changed.
pub open spec fn unchanged_but_title(a: &OHLCRenderOptions, b: &OHLCRenderOptions) -> bool {
    &&& b.background_colour == a.background_colour
    &&& b.current_value_colour == a.current_value_colour
    &&& b.time_units == a.time_units
    &&& b.line_colour == a.line_colour
    &&& b.price_line_interval == a.price_line_interval
    &&& b.time_line_interval == a.time_line_interval
    &&& b.down_colour == a.down_colour
    &&& b.up_colour == a.up_colour
    &&& b.render_extensions@ == a.render_extensions@
}

/// Nothing but the indicator colours changed.
pub open spec fn unchanged_but_indicators(a: &OHLCRenderOptions, b: &OHLCRenderOptions) -> bool {
    &&& b.title@ == a.title@
    &&& b.title_colour == a.title_colour
    &&& b.background_colour == a.background_colour
    &&& b.time_units == a.time_units
    &&& b.line_colour == a.line_colour
    &&& b.price_line_interval == a.price_line_interval
    &&& b.time_line_interval == a.time_line_interval
    &&& b.render_extensions@ == a.render_extensions@
}

/// Nothing but the grid settings changed.
pub open spec fn unchanged_but_line(a: &OHLCRenderOptions, b: &OHLCRenderOptions) -> bool {
    &&& b.title@ == a.title@
    &&& b.title_colour == a.title_colour
    &&& b.background_colour == a.background_colour
    &&& b.current_value_colour == a.current_value_colour
    &&& b.time_units == a.time_units
    &&& b.down_colour == a.down_colour
    &&& b.up_colour == a.up_colour
    &&& b.render_extensions@ == a.render_extensions@
}

/// Nothing but the background colour changed.
pub open spec fn unchanged_but_background(a: &OHLCRenderOptions, b: &OHLCRenderOptions) -> bool {
    &&& b.title@ == a.title@
    &&& b.title_colour == a.title_colour
    &&& b.current_value_colour == a.current_value_colour
    &&& b.time_units == a.time_units
    &&& b.line_colour == a.line_colour
    &&& b.price_line_interval == a.price_line_interval
    &&& b.time_line_interval == a.time_line_interval
    &&& b.down_colour == a.down_colour
    &&& b.up_colour == a.up_colour
    &&& b.render_extensions@ == a.render_extensions@
}

/// Nothing but the candle length changed.
pub open spec fn unchanged_but_time_units(a: &OHLCRenderOptions, b: &OHLCRenderOptions) -> bool {
    &&& b.title@ == a.title@
    &&& b.title_colour == a.title_colour
    &&& b.background_colour == a.background_colour
    &&& b.current_value_colour == a.current_value_colour
    &&& b.line_colour == a.line_colour
    &&& b.price_line_interval == a.price_line_interval
    &&& b.time_line_interval == a.time_line_interval
    &&& b.down_colour == a.down_colour
    &&& b.up_colour == a.up_colour
    &&& b.render_extensions@ == a.render_extensions@
}

/// Nothing but the overlay list changed.
pub open spec fn unchanged_but_extensions(a: &OHLCRenderOptions, b: &OHLCRenderOptions) -> bool {
    &&& b.title@ == a.title@
    &&& b.title_colour == a.title_colour
    &&& b.background_colour == a.background_colour
    &&& b.current_value_colour == a.current_value_colour
    &&& b.time_units == a.time_units
    &&& b.line_colour == a.line_colour
    &&& b.price_line_interval == a.price_line_interval
    &&& b.time_line_interval == a.time_line_interval
    &&& b.down_colour == a.down_colour
    &&& b.up_colour == a.up_colour
}

} // verus!
