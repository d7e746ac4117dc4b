use vstd::prelude::*;
use vstd::string::StringSliceAdditionalSpecFns;

use crate::data::PRICE_LIMIT;
use crate::painting::MAX_COORD;
use crate::painting::MAX_DIM;
use crate::painting::Point;
use crate::painting::ops_bytes;
use crate::painting::PaintOp;
use crate::painting::Raster;
use crate::PrecondError;

verus! {

/// Largest time window, in seconds, a chart may cover.
pub const TIME_LIMIT: i64 = 1_000_000_000_000;

/// Largest denominator a strip's progress fraction may carry: wide enough
/// for any value range an indicator computed from in-range prices can span.
pub const PROGRESS_LIMIT: i64 = 10_000_000_000_000;

/// The blank frame around the plot area, in pixels.
#[derive(Debug)]
pub struct Margin {
    /// Pixels above the plot area.
    pub top: usize,
    /// Pixels below the plot area.
    pub bottom: usize,
    /// Pixels left of the plot area.
    pub left: usize,
    /// Pixels right of the plot area.
    pub right: usize,
}

/// Everything the painting contracts read of a chart, as one mathematical
/// value: its geometry and its pixel bytes.
pub struct ChartView {
    pub width: int,
    pub height: int,
    pub background: u32,
    pub margin_top: int,
    pub margin_bottom: int,
    pub margin_left: int,
    pub margin_right: int,
    pub max_price: int,
    pub min_price: int,
    pub timeframe: int,
    pub bytes: Seq<u8>,
}

/// The pixel column a time maps to on a chart view, as
/// `ChartBuffer::spec_x_coord` states.
pub open spec fn view_x_coord(v: ChartView, time: int) -> int {
    if time <= 0 {
        v.margin_left
    } else if time >= v.timeframe {
        v.width - v.margin_right
    } else {
        v.margin_left + (time * (v.width - v.margin_left - v.margin_right)) / v.timeframe
    }
}

/// The pixel row a price maps to on a chart view, as
/// `ChartBuffer::spec_y_coord` states.
pub open spec fn view_y_coord(v: ChartView, price: int) -> int {
    if price >= v.max_price {
        v.margin_top
    } else if price <= v.min_price {
        v.height - v.margin_bottom
    } else {
        v.height - v.margin_bottom - ((price - v.min_price) * (v.height - v.margin_top
            - v.margin_bottom)) / (v.max_price - v.min_price)
    }
}

/// The pixel a data point maps to on a chart view.
pub open spec fn view_point(v: ChartView, price: int, time: int) -> Point {
    (view_x_coord(v, time) as usize, view_y_coord(v, price) as usize)
}

/// Everything the painting contracts read of a sub-panel strip.
pub struct StripView {
    pub width: int,
    pub height: int,
    pub background: u32,
    pub margin_top: int,
    pub margin_bottom: int,
    pub margin_left: int,
    pub margin_right: int,
    pub timeframe: int,
}

/// The pixel column a time maps to on a strip view.
pub open spec fn strip_x_coord(v: StripView, time: int) -> int {
    if time <= 0 {
        v.margin_left
    } else if time >= v.timeframe {
        v.width - v.margin_right
    } else {
        v.margin_left + (time * (v.width - v.margin_left - v.margin_right)) / v.timeframe
    }
}

/// The pixel row a progress fraction `num / den` maps to on a strip view.
pub open spec fn strip_y_coord(v: StripView, num: int, den: int) -> int {
    if num >= den {
        v.margin_top
    } else if num <= 0 {
        v.height - v.margin_bottom
    } else {
        v.height - v.margin_bottom - (num * (v.height - v.margin_top - v.margin_bottom)) / den
    }
}

/// The pixel a strip data point maps to.
pub open spec fn strip_point(v: StripView, num: int, den: int, time: int) -> Point {
    (strip_x_coord(v, time) as usize, strip_y_coord(v, num, den) as usize)
}

/// The fresh sub-panel a chart view hands out: the chart's width,
/// background and time axis, label room above and below, cleared to the
/// background colour.
pub open spec fn sub_strip_of(v: ChartView, height: int) -> StripView {
    StripView {
        width: v.width,
        height: height,
        background: v.background,
        margin_top: 40,
        margin_bottom: 35,
        margin_left: v.margin_left,
        margin_right: v.margin_right,
        timeframe: v.timeframe,
    }
}

/// The pixel buffer of one chart together with its geometry: margins, the
/// price window shown on the vertical axis and the time window shown on the
/// horizontal axis.
#[derive(Debug)]
pub struct ChartBuffer {
    /// The pixel raster the chart is painted on.
    pub raster: Raster,
    /// The blank frame around the plot area.
    pub margin: Margin,
    /// Highest price the chart can display.
    pub max_price: i64,
    /// Lowest price the chart can display.
    pub min_price: i64,
    /// The amount of time the chart covers, in seconds.
    pub timeframe: i64,
}

impl ChartBuffer {
    /// The chart geometry is consistent: the raster is well-formed, the
    /// margins leave room for a plot area, the price window is non-empty
    /// and inside the supported range, and so is the time window.
    pub open spec fn wf(&self) -> bool {
        &&& self.raster.wf()
        &&& self.margin.top + self.margin.bottom < self.raster.height
        &&& self.margin.left + self.margin.right < self.raster.width
        &&& -PRICE_LIMIT <= self.min_price < self.max_price <= PRICE_LIMIT
        &&& 0 < self.timeframe <= TIME_LIMIT
    }

    /// Width of the plot area in pixels.
    pub open spec fn plot_width(&self) -> int {
        self.raster.width - self.margin.left - self.margin.right
    }

    /// Height of the plot area in pixels.
    pub open spec fn plot_height(&self) -> int {
        self.raster.height - self.margin.top - self.margin.bottom
    }

    /// The chart as one mathematical value.
    pub open spec fn view(&self) -> ChartView {
        ChartView {
            width: self.raster.width as int,
            height: self.raster.height as int,
            background: self.raster.background,
            margin_top: self.margin.top as int,
            margin_bottom: self.margin.bottom as int,
            margin_left: self.margin.left as int,
            margin_right: self.margin.right as int,
            max_price: self.max_price as int,
            min_price: self.min_price as int,
            timeframe: self.timeframe as int,
            bytes: self.raster.bytes(),
        }
    }

    /// Two chart buffers agree on everything but the pixel bytes.
    pub open spec fn same_geometry(&self, other: &ChartBuffer) -> bool {
        &&& self.raster.same_shape(&other.raster)
        &&& self.margin == other.margin
        &&& self.max_price == other.max_price
        &&& self.min_price == other.min_price
        &&& self.timeframe == other.timeframe
    }

    /// The pixel column a time maps to: times at or before the window start
    /// land on the left edge of the plot area, times at or past the window
    /// end on its right edge, and in between the column grows linearly with
    /// time, rounded down.
    pub open spec fn spec_x_coord(&self, time: int) -> int {
        if time <= 0 {
            self.margin.left as int
        } else if time >= self.timeframe {
            self.raster.width - self.margin.right
        } else {
            self.margin.left + (time * self.plot_width()) / (self.timeframe as int)
        }
    }

    /// The pixel row a price maps to: prices at or above the window top land
    /// on the top edge of the plot area, prices at or below the window
    /// bottom on its bottom edge, and in between the row climbs linearly
    /// with price (larger price, smaller row), the offset rounded down.
    pub open spec fn spec_y_coord(&self, price: int) -> int {
        if price >= self.max_price {
            self.margin.top as int
        } else if price <= self.min_price {
            self.raster.height - self.margin.bottom
        } else {
            self.raster.height - self.margin.bottom - ((price - self.min_price)
                * self.plot_height()) / (self.max_price - self.min_price)
        }
    }

    /// Map a data point to its pixel: column from the time, row from the
    /// price, both clamped to the plot area.
    pub fn data_to_coords(&self, price: i64, time: i64) -> (r: Point)
        requires
            self.wf(),
        ensures
            r.0 == self.spec_x_coord(time as int),
            r.1 == self.spec_y_coord(price as int),
            r == view_point(self.view(), price as int, time as int),
            self.margin.left <= r.0 <= self.raster.width - self.margin.right,
            self.margin.top <= r.1 <= self.raster.height - self.margin.bottom,
            r.0 <= MAX_COORD,
            r.1 <= MAX_COORD,
    {
        let width = self.raster.width;
        let height = self.raster.height;
        let x = if time <= 0 {
            self.margin.left
        } else if time >= self.timeframe {
            width - self.margin.right
        } else {
            let pw = (width - self.margin.right - self.margin.left) as u64;
            proof {
                assert((time as int) * (pw as int) <= (TIME_LIMIT as int) * (MAX_DIM as int))
                    by (nonlinear_arith)
                    requires
                        0 < time <= TIME_LIMIT,
                        0 <= pw <= MAX_DIM,
                ;
                crate::painting::lemma_interp_bounds(
                    time as int,
                    pw as int,
                    self.timeframe as int,
                );
            }
            let q = ((time as u64) * pw) / (self.timeframe as u64);
            self.margin.left + (q as usize)
        };
        let y = if price >= self.max_price {
            self.margin.top
        } else if price <= self.min_price {
            height - self.margin.bottom
        } else {
            let bottom = height - self.margin.bottom;
            let ph = (bottom - self.margin.top) as u64;
            let diff = (price - self.min_price) as u64;
            let range = (self.max_price - self.min_price) as u64;
            proof {
                assert((diff as int) * (ph as int) <= (2 * PRICE_LIMIT as int) * (MAX_DIM as int))
                    by (nonlinear_arith)
                    requires
                        0 < diff <= 2 * PRICE_LIMIT as int,
                        0 <= ph <= MAX_DIM,
                ;
                crate::painting::lemma_interp_bounds(diff as int, ph as int, range as int);
            }
            let q = (diff * ph) / range;
            bottom - (q as usize)
        };
        (x, y)
    }

    /// Apply a display list to the chart's raster.
    pub fn paint_ops(&mut self, ops: &Vec<PaintOp>)
        requires
            old(self).wf(),
            forall|i: int| 0 <= i < ops@.len() ==> crate::painting::op_ok(#[trigger] ops@[i]),
        ensures
            final(self).wf(),
            final(self).same_geometry(old(self)),
            final(self).raster.bytes() == ops_bytes(
                old(self).raster.bytes(),
                old(self).raster.spec_width() as int,
                old(self).raster.spec_height() as int,
                old(self).raster.spec_background(),
                ops@,
            ),
    {
        self.raster.paint_ops(ops);
    }

    pub fn width(&self) -> (r: usize)
        ensures
            r == self.raster.spec_width(),
    {
        self.raster.width()
    }

    pub fn height(&self) -> (r: usize)
        ensures
            r == self.raster.spec_height(),
    {
        self.raster.height()
    }

    pub fn background(&self) -> (r: u32)
        ensures
            r == self.raster.spec_background(),
    {
        self.raster.background()
    }

    pub fn buffer(&self) -> (r: &Vec<u8>)
        ensures
            r@ == self.raster.bytes(),
    {
        self.raster.buffer()
    }

    /// A fresh chart: a raster of the given size cleared to the background
    /// colour (its alpha byte forced to fully opaque), with the given
    /// margins, price window and time window. Rejects, as the precondition
    /// violations they are: an empty or inverted price window, a
    /// non-positive or over-long time window, margins that leave no plot
    /// area, prices outside the supported window, and over-large dimensions.
    pub fn new(
        width: usize,
        height: usize,
        margin: Margin,
        max_price: i64,
        min_price: i64,
        timeframe: i64,
        background: u32,
    ) -> (r: Result<ChartBuffer, PrecondError>)
        ensures
            match r {
                Ok(c) => {
                    &&& c.wf()
                    &&& c.raster.spec_width() == width
                    &&& c.raster.spec_height() == height
                    &&& c.raster.spec_background() == (background | 0xFF)
                    &&& c.margin == margin
                    &&& c.max_price == max_price
                    &&& c.min_price == min_price
                    &&& c.timeframe == timeframe
                    &&& c.raster.bytes() == crate::painting::fill_bytes(
                        width as int * height as int,
                        background,
                    )
                },
                Err(PrecondError::DimensionsTooLarge) => width > MAX_DIM || height > MAX_DIM,
                Err(PrecondError::ValueOutOfRange) => width <= MAX_DIM && height <= MAX_DIM && (
                max_price > PRICE_LIMIT || max_price < -PRICE_LIMIT || min_price > PRICE_LIMIT
                    || min_price < -PRICE_LIMIT || timeframe > TIME_LIMIT),
                Err(PrecondError::InvertedPriceRange) => max_price <= min_price,
                Err(PrecondError::NonPositiveTimeframe) => timeframe <= 0,
                Err(PrecondError::MarginsTooLarge) => margin.top + margin.bottom >= height
                    || margin.left + margin.right >= width,
                Err(_) => false,
            },
            r is Ok <==> (width <= MAX_DIM && height <= MAX_DIM && -PRICE_LIMIT <= min_price
                < max_price <= PRICE_LIMIT && 0 < timeframe <= TIME_LIMIT && margin.top
                + margin.bottom < height && margin.left + margin.right < width),
    {
        if width > MAX_DIM || height > MAX_DIM {
            return Err(PrecondError::DimensionsTooLarge);
        }
        if max_price > PRICE_LIMIT || max_price < -PRICE_LIMIT || min_price > PRICE_LIMIT
            || min_price < -PRICE_LIMIT || timeframe > TIME_LIMIT {
            return Err(PrecondError::ValueOutOfRange);
        }
        if max_price <= min_price {
            return Err(PrecondError::InvertedPriceRange);
        }
        if timeframe <= 0 {
            return Err(PrecondError::NonPositiveTimeframe);
        }
        if margin.top >= height || margin.bottom >= height - margin.top || margin.left >= width
            || margin.right >= width - margin.left {
            return Err(PrecondError::MarginsTooLarge);
        }
        let raster = Raster::new(width, height, background);
        Ok(
            ChartBuffer {
                raster: Raster {
                    width: raster.width,
                    height: raster.height,
                    background: background | 0xFF,
                    data: raster.data,
                },
                margin,
                max_price,
                min_price,
                timeframe,
            },
        )
    }
}

impl ChartBuffer {
    /// Blend one pixel; pixels outside the raster are ignored.
    pub fn colour(&mut self, x: usize, y: usize, rgba: u32)
        requires
            old(self).wf(),
        ensures
            final(self).wf(),
            final(self).same_geometry(old(self)),
            final(self).raster.bytes() == crate::painting::colour_bytes(
                old(self).raster.bytes(),
                old(self).raster.spec_width() as int,
                old(self).raster.spec_height() as int,
                x as int,
                y as int,
                rgba,
            ),
    {
        self.raster.colour(x, y, rgba);
    }

    /// Blend the pixel at `p`; pixels outside the raster are ignored.
    pub fn colour_point(&mut self, p: Point, rgba: u32)
        requires
            old(self).wf(),
        ensures
            final(self).wf(),
            final(self).same_geometry(old(self)),
            final(self).raster.bytes() == crate::painting::colour_bytes(
                old(self).raster.bytes(),
                old(self).raster.spec_width() as int,
                old(self).raster.spec_height() as int,
                p.0 as int,
                p.1 as int,
                rgba,
            ),
    {
        self.raster.colour_point(p, rgba);
    }

    /// Blend the pixel the data point maps to.
    pub fn put(&mut self, price: i64, time: i64, rgba: u32)
        requires
            old(self).wf(),
        ensures
            final(self).wf(),
            final(self).same_geometry(old(self)),
            final(self).raster.bytes() == crate::painting::colour_bytes(
                old(self).raster.bytes(),
                old(self).raster.spec_width() as int,
                old(self).raster.spec_height() as int,
                old(self).spec_x_coord(time as int),
                old(self).spec_y_coord(price as int),
                rgba,
            ),
    {
        let p = self.data_to_coords(price, time);
        self.raster.colour(p.0, p.1, rgba);
    }

    /// Fill the bounding box of the two corners, given by coordinates.
    pub fn rect(&mut self, x1: usize, y1: usize, x2: usize, y2: usize, rgba: u32)
        requires
            old(self).wf(),
            x1 <= MAX_COORD,
            y1 <= MAX_COORD,
            x2 <= MAX_COORD,
            y2 <= MAX_COORD,
        ensures
            final(self).wf(),
            final(self).same_geometry(old(self)),
            final(self).raster.bytes() == crate::painting::rect_bytes(
                old(self).raster.bytes(),
                old(self).raster.spec_width() as int,
                vstd::math::min(x1 as int, x2 as int),
                vstd::math::min(y1 as int, y2 as int),
                vstd::math::max(x1 as int, x2 as int),
                vstd::math::max(y1 as int, y2 as int),
                rgba,
            ),
    {
        self.raster.rect(x1, y1, x2, y2, rgba);
    }

    /// Fill the bounding box of the two corner points.
    pub fn rect_point(&mut self, p1: Point, p2: Point, rgba: u32)
        requires
            old(self).wf(),
            p1.0 <= MAX_COORD,
            p1.1 <= MAX_COORD,
            p2.0 <= MAX_COORD,
            p2.1 <= MAX_COORD,
        ensures
            final(self).wf(),
            final(self).same_geometry(old(self)),
            final(self).raster.bytes() == crate::painting::rect_bytes(
                old(self).raster.bytes(),
                old(self).raster.spec_width() as int,
                vstd::math::min(p1.0 as int, p2.0 as int),
                vstd::math::min(p1.1 as int, p2.1 as int),
                vstd::math::max(p1.0 as int, p2.0 as int),
                vstd::math::max(p1.1 as int, p2.1 as int),
                rgba,
            ),
    {
        self.raster.rect_point(p1, p2, rgba);
    }

    /// Draw the line between the two points.
    pub fn line(&mut self, p1: Point, p2: Point, rgba: u32)
        requires
            old(self).wf(),
            p1.0 <= MAX_COORD,
            p1.1 <= MAX_COORD,
            p2.0 <= MAX_COORD,
            p2.1 <= MAX_COORD,
        ensures
            final(self).wf(),
            final(self).same_geometry(old(self)),
            final(self).raster.bytes() == crate::painting::line_bytes(
                old(self).raster.bytes(),
                old(self).raster.spec_width() as int,
                old(self).raster.spec_height() as int,
                p1,
                p2,
                rgba,
            ),
    {
        self.raster.line(p1, p2, rgba);
    }

    /// Paint a text string with its top-left corner at `topleft`.
    pub fn text(&mut self, topleft: Point, text: &str, rgba: u32)
        requires
            old(self).wf(),
        ensures
            final(self).wf(),
            final(self).same_geometry(old(self)),
            final(self).raster.bytes() == crate::painting::text_bytes(
                old(self).raster.bytes(),
                old(self).raster.spec_width() as int,
                old(self).raster.spec_height() as int,
                topleft,
                text.spec_bytes(),
                rgba,
            ),
    {
        self.raster.text(topleft, text, rgba);
    }

    /// Paint a single line of text with a one-pixel outline box around it.
    pub fn text_with_outline(&mut self, topleft: Point, text: &str, rgba: u32)
        requires
            old(self).wf(),
            topleft.0 <= MAX_COORD,
            topleft.1 <= MAX_COORD,
        ensures
            final(self).wf(),
            final(self).same_geometry(old(self)),
            final(self).raster.bytes() == crate::painting::text_bytes(
                crate::painting::outline_bytes(
                    old(self).raster.bytes(),
                    old(self).raster.spec_width() as int,
                    topleft.0 as int,
                    topleft.1 as int,
                    text.spec_bytes().len() as int,
                    rgba,
                    old(self).raster.spec_background(),
                ),
                old(self).raster.spec_width() as int,
                old(self).raster.spec_height() as int,
                ((topleft.0 + 1) as usize, (topleft.1 + 1) as usize),
                text.spec_bytes(),
                rgba,
            ),
    {
        self.raster.text_with_outline(topleft, text, rgba);
    }

    /// Paint a single line of text over a solid backing rectangle.
    pub fn text_with_background(
        &mut self,
        topleft: Point,
        text: &str,
        rgba: u32,
        background_rgba: u32,
    )
        requires
            old(self).wf(),
            topleft.0 <= MAX_COORD,
            topleft.1 <= MAX_COORD,
        ensures
            final(self).wf(),
            final(self).same_geometry(old(self)),
            final(self).raster.bytes() == crate::painting::text_bytes(
                crate::painting::backing_bytes(
                    old(self).raster.bytes(),
                    old(self).raster.spec_width() as int,
                    topleft,
                    text.spec_bytes().len() as int,
                    background_rgba,
                ),
                old(self).raster.spec_width() as int,
                old(self).raster.spec_height() as int,
                topleft,
                text.spec_bytes(),
                rgba,
            ),
    {
        self.raster.text_with_background(topleft, text, rgba, background_rgba);
    }

    /// A fresh sub-panel strip below the plot: same width, background and
    /// time axis as the chart, with label room above and below. The strip is
    /// painted separately and then attached to the bottom of the chart.
    pub fn create_extension_strip(&self, height: usize) -> (r: Result<
        ExtensionStrip,
        PrecondError,
    >)
        requires
            self.wf(),
        ensures
            match r {
                Ok(s) => {
                    &&& s.wf()
                    &&& s.raster.spec_width() == self.raster.spec_width()
                    &&& s.raster.spec_height() == height
                    &&& s.raster.spec_background() == self.raster.spec_background()
                    &&& s.timeframe == self.timeframe
                    &&& s.margin.top == 40
                    &&& s.margin.bottom == 35
                    &&& s.margin.left == self.margin.left
                    &&& s.margin.right == self.margin.right
                    &&& s.raster.bytes() == crate::painting::fill_bytes(
                        self.raster.spec_width() as int * height as int,
                        self.raster.spec_background(),
                    )
                },
                Err(PrecondError::DimensionsTooLarge) => height > MAX_DIM,
                Err(PrecondError::MarginsTooLarge) => height <= 75,
                Err(_) => false,
            },
            r is Ok <==> 75 < height <= MAX_DIM,
    {
        if height > MAX_DIM {
            return Err(PrecondError::DimensionsTooLarge);
        }
        if height <= 75 {
            return Err(PrecondError::MarginsTooLarge);
        }
        let margin = Margin {
            top: 40,
            bottom: 35,
            left: self.margin.left,
            right: self.margin.right,
        };
        let raster = Raster::new(self.raster.width, height, self.raster.background);
        Ok(ExtensionStrip { raster, margin, timeframe: self.timeframe })
    }

    /// Attach a painted strip below the chart: the image grows by the
    /// strip's height, the strip's rows follow the chart's rows in the
    /// buffer, and the bottom margin grows so that the plot area of the
    /// original chart is unchanged.
    pub fn attach_extension_strip(&mut self, strip: ExtensionStrip)
        requires
            old(self).wf(),
            strip.raster.wf(),
            strip.raster.spec_width() == old(self).raster.spec_width(),
            old(self).raster.spec_height() + strip.raster.spec_height() <= MAX_DIM,
        ensures
            final(self).wf(),
            final(self).raster.spec_width() == old(self).raster.spec_width(),
            final(self).raster.spec_height() == old(self).raster.spec_height()
                + strip.raster.spec_height(),
            final(self).raster.spec_background() == old(self).raster.spec_background(),
            final(self).margin.top == old(self).margin.top,
            final(self).margin.left == old(self).margin.left,
            final(self).margin.right == old(self).margin.right,
            final(self).margin.bottom == old(self).margin.bottom
                + strip.raster.spec_height(),
            final(self).max_price == old(self).max_price,
            final(self).min_price == old(self).min_price,
            final(self).timeframe == old(self).timeframe,
            final(self).raster.bytes() == old(self).raster.bytes() + strip.raster.bytes(),
            final(self).plot_width() == old(self).plot_width(),
            final(self).plot_height() == old(self).plot_height(),
    {
        proof {
            assert(self.raster.width * (self.raster.height + strip.raster.height) * 3
                == self.raster.width * self.raster.height * 3 + self.raster.width
                * strip.raster.height * 3) by (nonlinear_arith);
        }
        let mut strip = strip;
        self.raster.height = self.raster.height + strip.raster.height;
        self.margin.bottom = self.margin.bottom + strip.raster.height;
        self.raster.data.append(&mut strip.raster.data);
    }
}

/// A sub-panel below the main plot: its own pixel rows and margins, the
/// same width and time axis as the chart it extends. Its vertical axis is
/// addressed by progress (a fraction of the panel height) rather than by
/// price.
#[derive(Debug)]
pub struct ExtensionStrip {
    /// The pixel raster of the strip.
    pub raster: Raster,
    /// The blank frame around the strip's plot area.
    pub margin: Margin,
    /// The amount of time the strip covers, in seconds.
    pub timeframe: i64,
}

impl ExtensionStrip {
    /// The strip geometry is consistent.
    pub open spec fn wf(&self) -> bool {
        &&& self.raster.wf()
        &&& self.margin.top + self.margin.bottom < self.raster.height
        &&& self.margin.left + self.margin.right < self.raster.width
        &&& 0 < self.timeframe <= TIME_LIMIT
    }

    /// Width of the strip's plot area in pixels.
    pub open spec fn plot_width(&self) -> int {
        self.raster.width - self.margin.left - self.margin.right
    }

    /// Height of the strip's plot area in pixels.
    pub open spec fn plot_height(&self) -> int {
        self.raster.height - self.margin.top - self.margin.bottom
    }

    /// Two strips agree on everything but the pixel bytes.
    pub open spec fn same_geometry(&self, other: &ExtensionStrip) -> bool {
        &&& self.raster.same_shape(&other.raster)
        &&& self.margin == other.margin
        &&& self.timeframe == other.timeframe
    }

    /// The strip's geometry as one mathematical value.
    pub open spec fn view(&self) -> StripView {
        StripView {
            width: self.raster.width as int,
            height: self.raster.height as int,
            background: self.raster.background,
            margin_top: self.margin.top as int,
            margin_bottom: self.margin.bottom as int,
            margin_left: self.margin.left as int,
            margin_right: self.margin.right as int,
            timeframe: self.timeframe as int,
        }
    }

    /// The pixel column a time maps to, as on the main chart.
    pub open spec fn spec_x_coord(&self, time: int) -> int {
        if time <= 0 {
            self.margin.left as int
        } else if time >= self.timeframe {
            self.raster.width - self.margin.right
        } else {
            self.margin.left + (time * self.plot_width()) / (self.timeframe as int)
        }
    }

    /// The pixel row a vertical progress fraction `num / den` maps to:
    /// fractions at or above one land on the top edge of the plot area, at
    /// or below zero on its bottom edge, in between the row climbs linearly
    /// with the fraction, the offset rounded down.
    pub open spec fn spec_y_coord(&self, num: int, den: int) -> int {
        if num >= den {
            self.margin.top as int
        } else if num <= 0 {
            self.raster.height - self.margin.bottom
        } else {
            self.raster.height - self.margin.bottom - (num * self.plot_height()) / den
        }
    }

    /// A fresh strip of the given size, cleared to the background colour.
    pub fn new(
        width: usize,
        height: usize,
        background: u32,
        timeframe: i64,
        margin: Margin,
    ) -> (r: Result<ExtensionStrip, PrecondError>)
        ensures
            match r {
                Ok(s) => {
                    &&& s.wf()
                    &&& s.raster.spec_width() == width
                    &&& s.raster.spec_height() == height
                    &&& s.raster.spec_background() == background
                    &&& s.timeframe == timeframe
                    &&& s.margin == margin
                    &&& s.raster.bytes() == crate::painting::fill_bytes(
                        width as int * height as int,
                        background,
                    )
                },
                Err(PrecondError::DimensionsTooLarge) => width > MAX_DIM || height > MAX_DIM,
                Err(PrecondError::NonPositiveTimeframe) => timeframe <= 0 || timeframe
                    > TIME_LIMIT,
                Err(PrecondError::MarginsTooLarge) => margin.top + margin.bottom >= height
                    || margin.left + margin.right >= width,
                Err(_) => false,
            },
            r is Ok <==> (width <= MAX_DIM && height <= MAX_DIM && 0 < timeframe <= TIME_LIMIT
                && margin.top + margin.bottom < height && margin.left + margin.right < width),
    {
        if width > MAX_DIM || height > MAX_DIM {
            return Err(PrecondError::DimensionsTooLarge);
        }
        if timeframe <= 0 || timeframe > TIME_LIMIT {
            return Err(PrecondError::NonPositiveTimeframe);
        }
        if margin.top >= height || margin.bottom >= height - margin.top || margin.left >= width
            || margin.right >= width - margin.left {
            return Err(PrecondError::MarginsTooLarge);
        }
        let raster = Raster::new(width, height, background);
        Ok(ExtensionStrip { raster, margin, timeframe })
    }

    /// Map a data point of the strip to its pixel: column from the time,
    /// row from the vertical progress fraction `prog_num / prog_den`, both
    /// clamped to the strip's plot area.
    pub fn data_to_coords(&self, prog_num: i64, prog_den: i64, time: i64) -> (r: Point)
        requires
            self.wf(),
            0 < prog_den <= PROGRESS_LIMIT,
        ensures
            r.0 == self.spec_x_coord(time as int),
            r.1 == self.spec_y_coord(prog_num as int, prog_den as int),
            r == strip_point(self.view(), prog_num as int, prog_den as int, time as int),
            self.margin.left <= r.0 <= self.raster.width - self.margin.right,
            self.margin.top <= r.1 <= self.raster.height - self.margin.bottom,
            r.0 <= MAX_COORD,
            r.1 <= MAX_COORD,
    {
        let width = self.raster.width;
        let height = self.raster.height;
        let x = if time <= 0 {
            self.margin.left
        } else if time >= self.timeframe {
            width - self.margin.right
        } else {
            let pw = (width - self.margin.right - self.margin.left) as u64;
            proof {
                assert((time as int) * (pw as int) <= (TIME_LIMIT as int) * (MAX_DIM as int))
                    by (nonlinear_arith)
                    requires
                        0 < time <= TIME_LIMIT,
                        0 <= pw <= MAX_DIM,
                ;
                crate::painting::lemma_interp_bounds(
                    time as int,
                    pw as int,
                    self.timeframe as int,
                );
            }
            let q = ((time as u64) * pw) / (self.timeframe as u64);
            self.margin.left + (q as usize)
        };
        let y = if prog_num >= prog_den {
            self.margin.top
        } else if prog_num <= 0 {
            height - self.margin.bottom
        } else {
            let bottom = height - self.margin.bottom;
            let ph = (bottom - self.margin.top) as u64;
            proof {
                assert((prog_num as int) * (ph as int) <= (PROGRESS_LIMIT as int) * (
                MAX_DIM as int)) by (nonlinear_arith)
                    requires
                        0 < prog_num <= PROGRESS_LIMIT,
                        0 <= ph <= MAX_DIM,
                ;
                crate::painting::lemma_interp_bounds(
                    prog_num as int,
                    ph as int,
                    prog_den as int,
                );
            }
            let q = ((prog_num as u64) * ph) / (prog_den as u64);
            bottom - (q as usize)
        };
        (x, y)
    }

    pub fn width(&self) -> (r: usize)
        ensures
            r == self.raster.spec_width(),
    {
        self.raster.width()
    }

    pub fn height(&self) -> (r: usize)
        ensures
            r == self.raster.spec_height(),
    {
        self.raster.height()
    }

    pub fn background(&self) -> (r: u32)
        ensures
            r == self.raster.spec_background(),
    {
        self.raster.background()
    }

    pub fn buffer(&self) -> (r: &Vec<u8>)
        ensures
            r@ == self.raster.bytes(),
    {
        self.raster.buffer()
    }

    /// Blend one pixel; pixels outside the strip are ignored.
    pub fn colour(&mut self, x: usize, y: usize, rgba: u32)
        requires
            old(self).wf(),
        ensures
            final(self).wf(),
            final(self).same_geometry(old(self)),
            final(self).raster.bytes() == crate::painting::colour_bytes(
                old(self).raster.bytes(),
                old(self).raster.spec_width() as int,
                old(self).raster.spec_height() as int,
                x as int,
                y as int,
                rgba,
            ),
    {
        self.raster.colour(x, y, rgba);
    }

    /// Apply a display list to the strip's raster.
    pub fn paint_ops(&mut self, ops: &Vec<PaintOp>)
        requires
            old(self).wf(),
            forall|i: int| 0 <= i < ops@.len() ==> crate::painting::op_ok(#[trigger] ops@[i]),
        ensures
            final(self).wf(),
            final(self).same_geometry(old(self)),
            final(self).raster.bytes() == ops_bytes(
                old(self).raster.bytes(),
                old(self).raster.spec_width() as int,
                old(self).raster.spec_height() as int,
                old(self).raster.spec_background(),
                ops@,
            ),
    {
        self.raster.paint_ops(ops);
    }

    /// Fill the bounding box of the two corner points.
    pub fn rect_point(&mut self, p1: Point, p2: Point, rgba: u32)
        requires
            old(self).wf(),
            p1.0 <= MAX_COORD,
            p1.1 <= MAX_COORD,
            p2.0 <= MAX_COORD,
            p2.1 <= MAX_COORD,
        ensures
            final(self).wf(),
            final(self).same_geometry(old(self)),
            final(self).raster.bytes() == crate::painting::rect_bytes(
                old(self).raster.bytes(),
                old(self).raster.spec_width() as int,
                vstd::math::min(p1.0 as int, p2.0 as int),
                vstd::math::min(p1.1 as int, p2.1 as int),
                vstd::math::max(p1.0 as int, p2.0 as int),
                vstd::math::max(p1.1 as int, p2.1 as int),
                rgba,
            ),
    {
        self.raster.rect_point(p1, p2, rgba);
    }

    /// Draw the line between the two points.
    pub fn line(&mut self, p1: Point, p2: Point, rgba: u32)
        requires
            old(self).wf(),
            p1.0 <= MAX_COORD,
            p1.1 <= MAX_COORD,
            p2.0 <= MAX_COORD,
            p2.1 <= MAX_COORD,
        ensures
            final(self).wf(),
            final(self).same_geometry(old(self)),
            final(self).raster.bytes() == crate::painting::line_bytes(
                old(self).raster.bytes(),
                old(self).raster.spec_width() as int,
                old(self).raster.spec_height() as int,
                p1,
                p2,
                rgba,
            ),
    {
        self.raster.line(p1, p2, rgba);
    }

    /// Paint a text string with its top-left corner at `topleft`.
    pub fn text(&mut self, topleft: Point, text: &str, rgba: u32)
        requires
            old(self).wf(),
        ensures
            final(self).wf(),
            final(self).same_geometry(old(self)),
            final(self).raster.bytes() == crate::painting::text_bytes(
                old(self).raster.bytes(),
                old(self).raster.spec_width() as int,
                old(self).raster.spec_height() as int,
                topleft,
                text.spec_bytes(),
                rgba,
            ),
    {
        self.raster.text(topleft, text, rgba);
    }

    /// Paint a single line of text with a one-pixel outline box around it.
    pub fn text_with_outline(&mut self, topleft: Point, text: &str, rgba: u32)
        requires
            old(self).wf(),
            topleft.0 <= MAX_COORD,
            topleft.1 <= MAX_COORD,
        ensures
            final(self).wf(),
            final(self).same_geometry(old(self)),
            final(self).raster.bytes() == crate::painting::text_bytes(
                crate::painting::outline_bytes(
                    old(self).raster.bytes(),
                    old(self).raster.spec_width() as int,
                    topleft.0 as int,
                    topleft.1 as int,
                    text.spec_bytes().len() as int,
                    rgba,
                    old(self).raster.spec_background(),
                ),
                old(self).raster.spec_width() as int,
                old(self).raster.spec_height() as int,
                ((topleft.0 + 1) as usize, (topleft.1 + 1) as usize),
                text.spec_bytes(),
                rgba,
            ),
    {
        self.raster.text_with_outline(topleft, text, rgba);
    }

    /// Paint a single line of text over a solid backing rectangle.
    pub fn text_with_background(
        &mut self,
        topleft: Point,
        text: &str,
        rgba: u32,
        background_rgba: u32,
    )
        requires
            old(self).wf(),
            topleft.0 <= MAX_COORD,
            topleft.1 <= MAX_COORD,
        ensures
            final(self).wf(),
            final(self).same_geometry(old(self)),
            final(self).raster.bytes() == crate::painting::text_bytes(
                crate::painting::backing_bytes(
                    old(self).raster.bytes(),
                    old(self).raster.spec_width() as int,
                    topleft,
                    text.spec_bytes().len() as int,
                    background_rgba,
                ),
                old(self).raster.spec_width() as int,
                old(self).raster.spec_height() as int,
                topleft,
                text.spec_bytes(),
                rgba,
            ),
    {
        self.raster.text_with_background(topleft, text, rgba, background_rgba);
    }
}

/// Within the plot area, a later time never maps to a smaller column.
pub proof fn lemma_x_coord_monotone(c: &ChartBuffer, t1: int, t2: int)
    requires
        c.wf(),
        t1 <= t2,
    ensures
        c.spec_x_coord(t1) <= c.spec_x_coord(t2),
{
    let pw = c.plot_width();
    let tf = c.timeframe as int;
    if 0 < t1 < tf {
        crate::painting::lemma_interp_bounds(t1, pw, tf);
    }
    if 0 < t2 < tf {
        crate::painting::lemma_interp_bounds(t2, pw, tf);
    }
    if 0 < t1 < tf && 0 < t2 < tf {
        assert(t1 * pw <= t2 * pw) by (nonlinear_arith)
            requires
                t1 <= t2,
                pw >= 0,
        ;
        vstd::arithmetic::div_mod::lemma_div_is_ordered(t1 * pw, t2 * pw, tf);
    }
}

/// A higher price never maps to a larger row: the vertical mapping reverses
/// order.
pub proof fn lemma_y_coord_antitone(c: &ChartBuffer, p1: int, p2: int)
    requires
        c.wf(),
        p1 <= p2,
    ensures
        c.spec_y_coord(p1) >= c.spec_y_coord(p2),
{
    let ph = c.plot_height();
    let lo = c.min_price as int;
    let hi = c.max_price as int;
    let range = hi - lo;
    if lo < p1 < hi {
        crate::painting::lemma_interp_bounds(p1 - lo, ph, range);
    }
    if lo < p2 < hi {
        crate::painting::lemma_interp_bounds(p2 - lo, ph, range);
    }
    if lo < p1 < hi && lo < p2 < hi {
        assert((p1 - lo) * ph <= (p2 - lo) * ph) by (nonlinear_arith)
            requires
                p1 <= p2,
                ph >= 0,
        ;
        vstd::arithmetic::div_mod::lemma_div_is_ordered((p1 - lo) * ph, (p2 - lo) * ph, range);
    }
}

/// A strictly higher price inside the price window maps to a strictly
/// smaller row as soon as the price difference spans at least one pixel row
/// of the plot area; prices closer together than the pixel resolution may
/// share a row.
pub proof fn lemma_y_coord_strict(c: &ChartBuffer, p1: int, p2: int)
    requires
        c.wf(),
        c.min_price <= p1 < p2 <= c.max_price,
        (p2 - p1) * c.plot_height() >= c.max_price - c.min_price,
    ensures
        c.spec_y_coord(p1) > c.spec_y_coord(p2),
{
    let ph = c.plot_height();
    let lo = c.min_price as int;
    let hi = c.max_price as int;
    let range = hi - lo;
    let bottom = c.raster.height - c.margin.bottom;
    assert(0 < ph);
    assert(0 < range);
    if p1 == lo {
        // row of p1 is the bottom edge
        if p2 >= hi {
            assert(c.spec_y_coord(p2) == c.margin.top as int);
        } else {
            // p2 sits at least one resolution step above the bottom
            crate::painting::lemma_interp_bounds(p2 - lo, ph, range);
            assert((p2 - lo) * ph >= range) by (nonlinear_arith)
                requires
                    p2 - lo >= p2 - p1,
                    (p2 - p1) * ph >= range,
                    0 < ph,
                    p1 <= lo,
            ;
            vstd::arithmetic::div_mod::lemma_div_is_ordered(range, (p2 - lo) * ph, range);
            vstd::arithmetic::div_mod::lemma_div_multiples_vanish(1, range);
            assert(range * 1 == range);
        }
    } else {
        // p1 strictly inside the window
        crate::painting::lemma_interp_bounds(p1 - lo, ph, range);
        let q1 = ((p1 - lo) * ph) / range;
        // q1 stays strictly below the full plot height
        if q1 >= ph {
            vstd::arithmetic::div_mod::lemma_fundamental_div_mod((p1 - lo) * ph, range);
            vstd::arithmetic::div_mod::lemma_mod_bound((p1 - lo) * ph, range);
            assert(false) by (nonlinear_arith)
                requires
                    (p1 - lo) * ph == range * q1 + ((p1 - lo) * ph) % range,
                    0 <= ((p1 - lo) * ph) % range,
                    q1 >= ph,
                    0 < ph,
                    0 < range,
                    hi - lo == range,
                    lo < p1 < hi,
            ;
        }
        if p2 >= hi {
            assert(c.spec_y_coord(p1) == bottom - q1);
            assert(c.spec_y_coord(p2) == c.margin.top as int);
        } else {
            // both strictly inside: the quotients differ by at least one
            let q2 = ((p2 - lo) * ph) / range;
            assert((p2 - lo) * ph >= (p1 - lo) * ph + range) by (nonlinear_arith)
                requires
                    (p2 - p1) * ph >= range,
                    0 < ph,
            ;
            vstd::arithmetic::div_mod::lemma_div_is_ordered(
                (p1 - lo) * ph + range,
                (p2 - lo) * ph,
                range,
            );
            let a = (p1 - lo) * ph;
            vstd::arithmetic::div_mod::lemma_fundamental_div_mod(a, range);
            vstd::arithmetic::div_mod::lemma_mod_bound(a, range);
            assert(a + range == (q1 + 1) * range + a % range) by (nonlinear_arith)
                requires
                    a == range * q1 + a % range,
            ;
            vstd::arithmetic::div_mod::lemma_fundamental_div_mod_converse(
                a + range,
                range,
                q1 + 1,
                a % range,
            );
            assert(q2 >= q1 + 1);
        }
    }
}

/// The corners of the data window map to the corners of the plot area: the
/// window top at the window end lands at the top-right corner, the window
/// bottom at the window start at the bottom-left corner.
pub proof fn lemma_corner_coords(c: &ChartBuffer)
    requires
        c.wf(),
    ensures
        c.spec_x_coord(c.timeframe as int) == c.raster.width - c.margin.right,
        c.spec_y_coord(c.max_price as int) == c.margin.top,
        c.spec_x_coord(0) == c.margin.left,
        c.spec_y_coord(c.min_price as int) == c.raster.height - c.margin.bottom,
{
}

} // verus!
