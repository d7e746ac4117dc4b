use ohlc::buffer::ChartBuffer;
use ohlc::rex::BollingerBands;
use ohlc::rex::Extension;
use ohlc::rex::TestFill;
use ohlc::rex::TestLine;
use ohlc::rex::TestText;
use ohlc::rex::DEMA;
use ohlc::rex::EMA;
use ohlc::rex::MACD;
use ohlc::rex::RSI;
use ohlc::rex::Volume;
use ohlc::OHLCRenderOptions;
use ohlc::OHLC;

/// A deterministic stand-in for a BTCUSD hourly feed: prices in cents,
/// wobbling around 600000.
fn sample_data() -> Vec<OHLC> {
    let mut data = Vec::new();
    let mut price: i64 = 600_000;
    for i in 0..48i64 {
        let swing = (i * 37) % 90 - 45;
        let open = price;
        let close = price + swing * 120;
        let high = if open > close { open } else { close } + 450;
        let low = if open > close { close } else { open } - 375;
        data.push(OHLC {
            o: open,
            h: high,
            l: low,
            c: close,
            bv: if i % 3 == 0 { Some(1_000 + i * 13) } else { None },
            v: 2_500 + i * 17,
        });
        price = close;
    }
    data
}

fn draw_with_extension(ext: Option<Extension>, suffix: &str) -> ChartBuffer {
    let data = sample_data();

    let mut options = OHLCRenderOptions::new();
    options.title(&format!("BTCUSD | ohlc-rs{}", suffix), 0x007F7FFF);
    options.line(0xCCCCCCFF, 200, 24);
    options.background_colour(0x36393EFF);

    if let Some(ext) = ext {
        options.add_extension(ext);
    }

    options.render_to_buffer(&data).unwrap()
}

#[test]
fn render_draw_sample_data() {
    draw_with_extension(None, "");
}

#[test]
fn render_draw_sample_data_plus_bb() {
    draw_with_extension(
        Some(Extension::BollingerBands(BollingerBands::new(20, 2, 0xFF0000FF))),
        "+bb",
    );
}

#[test]
fn render_draw_sample_data_plus_dema() {
    draw_with_extension(
        Some(Extension::Dema(DEMA::new(EMA::new(20, 1, 10, 0xFF0000FF)))),
        "+dema",
    );
}

#[test]
fn render_draw_sample_data_plus_ema() {
    draw_with_extension(Some(Extension::Ema(EMA::new(20, 1, 10, 0xFF0000FF))), "+ema");
}

#[test]
fn render_draw_sample_data_plus_macd() {
    draw_with_extension(
        Some(Extension::Macd(MACD::new(0xFF007FFF, 0xFFFFFFFF, 0x00FFFFFF, 0xFF0000FF, 1, 10))),
        "+macd",
    );
}

#[test]
fn render_draw_sample_data_plus_rsi() {
    draw_with_extension(
        Some(Extension::Rsi(RSI::new(0xCCCCCCFF, 0xFFFF007F, 0x27A819FF, 0xD33040FF))),
        "+rsi",
    );
}

#[test]
fn render_draw_sample_data_plus_volume() {
    let chart = draw_with_extension(
        Some(Extension::Volume(Volume::new(0xCCCCCCFF, 0x27A819FF, 0xD33040FF, 0x888888FF))),
        "+volume",
    );
    // the volume sub-panel grew the image below the plot
    assert!(chart.height() > 650);
}

#[test]
fn render_draw_sample_data_with_test_text() {
    draw_with_extension(Some(Extension::TestText(TestText)), "_test_text");
}

#[test]
fn render_draw_sample_data_with_test_fill() {
    draw_with_extension(Some(Extension::TestFill(TestFill { colour: 0xFFFF00FF })), "_test_fill");
}

#[test]
fn render_draw_sample_data_with_test_fill_alpha() {
    draw_with_extension(
        Some(Extension::TestFill(TestFill { colour: 0xFFFF007F })),
        "_test_fill_alpha",
    );
}

#[test]
fn render_draw_sample_data_with_test_line() {
    draw_with_extension(Some(Extension::TestLine(TestLine)), "_with_test_line");
}

/// Two candles, default colours: the aggregate summarises them and the
/// candle bodies carry the rising and falling colours.
#[test]
fn two_candle_scenario() {
    let data = vec![
        OHLC { o: 1, h: 4, l: 0, c: 2, bv: None, v: 0 },
        OHLC { o: 2, h: 4, l: 0, c: 1, bv: None, v: 0 },
    ];

    let agg = ohlc::utils::aggregate(&data);
    assert_eq!(agg.o, 1);
    assert_eq!(agg.h, 4);
    assert_eq!(agg.l, 0);
    assert_eq!(agg.c, 1);

    let options = OHLCRenderOptions::new();
    let chart = options.render_to_buffer(&data).unwrap();
    let width = chart.width();
    let timeframe = 2 * 3600i64;
    let period = timeframe / 2;
    let body_span = 4 * period / 5;

    // an interior pixel of candle 0's body, between open 1 and close 2
    let a1 = chart.data_to_coords(1, 0);
    let a2 = chart.data_to_coords(2, body_span);
    let ax = (a1.0 + a2.0) / 2;
    let ay = (a1.1 + a2.1) / 2;
    let abase = (ax + ay * width) * 3;
    let buffer = chart.buffer();
    // candle 0 closes above its open: the rising colour 0x27A819
    assert_eq!(buffer[abase], 0x27);
    assert_eq!(buffer[abase + 1], 0xA8);
    assert_eq!(buffer[abase + 2], 0x19);

    // an interior pixel of candle 1's body, between open 2 and close 1
    let b1 = chart.data_to_coords(2, period);
    let b2 = chart.data_to_coords(1, period + body_span);
    let bx = (b1.0 + b2.0) / 2;
    let by = (b1.1 + b2.1) / 2;
    let bbase = (bx + by * width) * 3;
    // candle 1 opens above its close: the falling colour 0xD33040
    assert_eq!(buffer[bbase], 0xD3);
    assert_eq!(buffer[bbase + 1], 0x30);
    assert_eq!(buffer[bbase + 2], 0x40);
}

/// The legend of an overlay that designates a colour is painted without
/// disturbing the rest of the pipeline.
#[test]
fn render_with_legend() {
    let chart = draw_with_extension(Some(Extension::Ema(EMA::new(5, 1, 4, 0x10C080FF))), "+l");
    assert_eq!(chart.width(), 1310);
    assert_eq!(chart.height(), 650);
    // the grey legend backing starts at the top-left legend row and
    // changes the background pixel there
    let base = (16 + 64 * 1310) * 3;
    assert_ne!(chart.buffer()[base], 0x36);
}
