use ohlc::buffer::ChartBuffer;
use ohlc::buffer::Margin;
use ohlc::painting::Raster;
use ohlc::PrecondError;

fn small_chart() -> ChartBuffer {
    ChartBuffer::new(
        200,
        100,
        Margin { top: 10, bottom: 10, left: 10, right: 10 },
        1_000,
        0,
        3_600,
        0x11223344,
    )
    .unwrap()
}

/// For a fixed time a higher price lands on a smaller row, and for a fixed
/// price a later time never lands on a smaller column.
#[test]
fn coordinate_monotonicity() {
    let chart = small_chart();
    let lower = chart.data_to_coords(250, 1_800);
    let higher = chart.data_to_coords(750, 1_800);
    assert!(higher.1 < lower.1);

    let early = chart.data_to_coords(500, 900);
    let late = chart.data_to_coords(500, 2_700);
    assert!(early.0 <= late.0);

    // prices below the pixel resolution may share a row, never swap order
    let a = chart.data_to_coords(500, 900);
    let b = chart.data_to_coords(501, 900);
    assert!(b.1 <= a.1);
}

/// The corners of the data window land exactly on the corners of the plot
/// area.
#[test]
fn coordinate_clamping() {
    let chart = small_chart();
    assert_eq!(chart.data_to_coords(1_000, 3_600), (200 - 10, 10));
    assert_eq!(chart.data_to_coords(0, 0), (10, 100 - 10));
    // values beyond the window clamp to the same corners
    assert_eq!(chart.data_to_coords(5_000, 9_999), (200 - 10, 10));
    assert_eq!(chart.data_to_coords(-5_000, -7), (10, 100 - 10));
}

/// A fully opaque colour overwrites the pixel; a fully transparent one
/// leaves it untouched.
#[test]
fn blend_identity() {
    let mut raster = Raster::new(8, 8, 0x10203040);
    let base = (3 + 4 * 8) * 3;

    raster.colour(3, 4, 0xAABBCCFF);
    assert_eq!(raster.buffer()[base], 0xAA);
    assert_eq!(raster.buffer()[base + 1], 0xBB);
    assert_eq!(raster.buffer()[base + 2], 0xCC);

    raster.colour(3, 4, 0x55667700);
    assert_eq!(raster.buffer()[base], 0xAA);
    assert_eq!(raster.buffer()[base + 1], 0xBB);
    assert_eq!(raster.buffer()[base + 2], 0xCC);
}

/// A half-transparent colour mixes with what lies beneath.
#[test]
fn blend_mixes_channels() {
    let mut raster = Raster::new(4, 4, 0x00000000);
    raster.colour(1, 1, 0xFF000080);
    let base = (1 + 1 * 4) * 3;
    // half of 255 red over black, rounded to nearest
    assert_eq!(raster.buffer()[base], 128);
    assert_eq!(raster.buffer()[base + 1], 0);
    assert_eq!(raster.buffer()[base + 2], 0);
}

/// A line paints the same pixels whichever way its endpoints are given.
#[test]
fn line_symmetry() {
    let cases = [
        ((2usize, 3usize), (37usize, 19usize)),
        ((0, 0), (39, 39)),
        ((5, 30), (33, 2)),
        ((7, 7), (7, 31)),
        ((4, 12), (28, 12)),
        ((9, 9), (9, 9)),
    ];
    for (a, b) in cases {
        let mut forward = Raster::new(40, 40, 0x00000000);
        let mut backward = Raster::new(40, 40, 0x00000000);
        forward.line(a, b, 0xFF00FFFF);
        backward.line(b, a, 0xFF00FFFF);
        assert_eq!(forward.buffer(), backward.buffer());
    }
}

/// A rectangle fills its whole box however its corners are given.
#[test]
fn rect_normalises_corners() {
    let mut one = Raster::new(16, 16, 0x00000000);
    let mut two = Raster::new(16, 16, 0x00000000);
    one.rect(2, 3, 9, 11, 0x11FF22FF);
    two.rect(9, 11, 2, 3, 0x11FF22FF);
    assert_eq!(one.buffer(), two.buffer());

    let inside = (5 + 7 * 16) * 3;
    assert_eq!(one.buffer()[inside], 0x11);
    let outside = (12 + 7 * 16) * 3;
    assert_eq!(one.buffer()[outside], 0x00);
}

/// Out-of-range pixels are ignored rather than wrapped or reported.
#[test]
fn out_of_bounds_pixels_are_ignored() {
    let mut raster = Raster::new(8, 8, 0x01020300);
    let before = raster.buffer().clone();
    raster.colour(8, 0, 0xFFFFFFFF);
    raster.colour(0, 8, 0xFFFFFFFF);
    raster.colour(1_000, 1_000, 0xFFFFFFFF);
    assert_eq!(raster.buffer(), &before);
}

/// Text puts ink inside the glyph cell and nothing left of it.
#[test]
fn text_paints_glyphs() {
    let mut raster = Raster::new(64, 32, 0x00000000);
    raster.text((2, 2), "A", 0xFFFFFFFF);
    let mut ink = 0usize;
    for y in 0..32 {
        for x in 2..12 {
            let base = (x + y * 64) * 3;
            if raster.buffer()[base] != 0 {
                ink += 1;
            }
        }
    }
    assert!(ink > 0);
    let left_of_cell = (1 + 5 * 64) * 3;
    assert_eq!(raster.buffer()[left_of_cell], 0);
}

fn constructor_error(
    result: Result<ChartBuffer, PrecondError>,
) -> PrecondError {
    match result {
        Ok(_) => panic!("the constructor accepted a misuse"),
        Err(e) => e,
    }
}

/// The chart constructor reports each misuse with its own error.
#[test]
fn chart_constructor_errors() {
    let margin = Margin { top: 10, bottom: 10, left: 10, right: 10 };
    let m2 = Margin { top: 60, bottom: 60, left: 10, right: 10 };
    assert_eq!(
        constructor_error(ChartBuffer::new(20_000, 100, margin, 10, 0, 60, 0)),
        PrecondError::DimensionsTooLarge
    );
    let margin = Margin { top: 10, bottom: 10, left: 10, right: 10 };
    assert_eq!(
        constructor_error(ChartBuffer::new(200, 100, margin, 0, 10, 60, 0)),
        PrecondError::InvertedPriceRange
    );
    let margin = Margin { top: 10, bottom: 10, left: 10, right: 10 };
    assert_eq!(
        constructor_error(ChartBuffer::new(200, 100, margin, 10, 0, 0, 0)),
        PrecondError::NonPositiveTimeframe
    );
    assert_eq!(
        constructor_error(ChartBuffer::new(200, 100, m2, 10, 0, 60, 0)),
        PrecondError::MarginsTooLarge
    );
}

/// A sub-panel strip shares the chart's width, background and time axis.
#[test]
fn extension_strip_geometry() {
    let chart = small_chart();
    let strip = chart.create_extension_strip(100).unwrap();
    assert_eq!(strip.width(), 200);
    assert_eq!(strip.height(), 100);
    assert_eq!(strip.timeframe, 3_600);
    // a strip too small for its own margins is refused
    assert!(chart.create_extension_strip(75).is_err());
}
