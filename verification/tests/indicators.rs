use ohlc::rex::bollinger_bands::bollinger_points;
use ohlc::rex::BasicIndicativeLines;
use ohlc::rex::BollingerBands;
use ohlc::rex::GridLines;
use ohlc::rex::NoExtension;
use ohlc::rex::OHLCCandles;
use ohlc::rex::DEMA;
use ohlc::rex::MACD;
use ohlc::rex::RSI;
use ohlc::rex::Volume;
use ohlc::rex::ema::ema;
use ohlc::rex::ema::median_list;
use ohlc::rex::ema::EMA;
use ohlc::rex::rsi::rsi_values;
use ohlc::rex::volume::keep_msf;
use ohlc::rex::RendererExtension;
use ohlc::OHLC;

fn bar(o: i64, h: i64, l: i64, c: i64) -> OHLC {
    OHLC { o, h, l, c, bv: None, v: 0 }
}

/// A moving average over a constant series returns the constant at every
/// index: the weighted average of a constant is the constant.
#[test]
fn ema_of_constant_series() {
    let config = EMA::new(20, 1, 10, 0);
    let data = vec![42_i64; 64];
    let out = ema(&config, &data);
    assert_eq!(out.len(), 64);
    for v in out {
        assert_eq!(v, 42);
    }
    let negative = vec![-7_i64; 30];
    for v in ema(&config, &negative) {
        assert_eq!(v, -7);
    }
}

/// The moving average stays between the smallest and largest sample.
#[test]
fn ema_stays_within_bounds() {
    let config = EMA::new(4, 3, 10, 0);
    let data = vec![10, 30, 20, 40, 0, 25, 35, 5];
    for v in ema(&config, &data) {
        assert!((0..=40).contains(&v));
    }
}

/// The candle median is halfway between low and high.
#[test]
fn median_of_candles() {
    let data = vec![bar(1, 10, 2, 5), bar(3, 7, 3, 4)];
    let medians = median_list(&data);
    assert_eq!(medians, vec![6, 5]);
}

/// Every relative-strength value lies between 0 and 100.
#[test]
fn rsi_values_are_bounded() {
    let mut data = Vec::new();
    for i in 0..40i64 {
        let open = 100 + (i * 13) % 17 - 8;
        let close = 100 + (i * 7) % 23 - 11;
        let high = open.max(close) + 2;
        let low = open.min(close) - 2;
        data.push(bar(open, high, low, close));
    }
    let out = rsi_values(&data, 10);
    assert_eq!(out.len(), 30);
    for v in out {
        assert!((0..=100).contains(&v));
    }
}

/// A window of rising closes reads 100, one of falling closes reads 0.
#[test]
fn rsi_extremes() {
    let rising: Vec<OHLC> = (0..12).map(|i| bar(i, i + 2, i - 1, i + 1)).collect();
    for v in rsi_values(&rising, 10) {
        assert_eq!(v, 100);
    }
    let falling: Vec<OHLC> = (0..12).map(|i| bar(101 - i, 102 - i, 99 - i, 100 - i)).collect();
    for v in rsi_values(&falling, 10) {
        assert_eq!(v, 0);
    }
}

/// The movement that counts is between closes: candles that never move
/// within themselves but whose closes fall step by step read 0.
#[test]
fn rsi_uses_close_deltas() {
    let data: Vec<OHLC> = (0..11).map(|i| {
        let c = 1_000 - 10 * i;
        bar(c, c + 1, c - 1, c)
    }).collect();
    for v in rsi_values(&data, 10) {
        assert_eq!(v, 0);
    }
}

/// At every band point the lower edge never exceeds the average and the
/// average never exceeds the upper edge.
#[test]
fn bollinger_band_ordering() {
    let mut values = Vec::new();
    for i in 0..50i64 {
        values.push(1_000 + (i * 31) % 97 - 48);
    }
    let bands = bollinger_points(&values, 20, 2);
    assert_eq!(bands.len(), 50);
    for b in bands {
        assert!(b.lower <= b.median);
        assert!(b.median <= b.higher);
    }
}

/// A flat series has a zero-width envelope on its average.
#[test]
fn bollinger_bands_of_flat_series() {
    let values = vec![250_i64; 24];
    for b in bollinger_points(&values, 8, 2) {
        assert_eq!(b.lower, 250);
        assert_eq!(b.median, 250);
        assert_eq!(b.higher, 250);
    }
}

/// Rounding to significant figures keeps the leading digits and the
/// magnitude.
#[test]
fn keep_msf_test() {
    assert_eq!(keep_msf(69, 1), 70);
    assert_eq!(keep_msf(696_969, 2), 700_000);
    assert_eq!(keep_msf(696_969, 3), 697_000);
    assert_eq!(keep_msf(696_969, 4), 697_000);
    assert_eq!(keep_msf(696_969, 5), 696_970);
    assert_eq!(keep_msf(696_969, 6), 696_969);
    assert_eq!(keep_msf(0, 3), 0);
    assert_eq!(keep_msf(5, 0), 0);
    assert_eq!(keep_msf(999, 2), 1_000);
}

/// Every built-in overlay reports its stable display name.
#[test]
fn extension_names() {
    assert_eq!(EMA::new(20, 1, 10, 7).name(), "EMA(20, sf=1/10)");
    assert_eq!(DEMA::new(EMA::new(20, 1, 10, 7)).name(), "DEMA(20, sf=1/10)");
    assert_eq!(MACD::new(1, 2, 3, 4, 1, 10).name(), "MACD(12, 26, 9, sf=1/10)");
    assert_eq!(BollingerBands::new(20, 2, 7).name(), "BB(20, 2)");
    assert_eq!(RSI::new(1, 2, 3, 4).name(), "RSI(10)");
    assert_eq!(Volume::new(1, 2, 3, 4).name(), "Volume");
    assert_eq!(GridLines::new(7, true, 1, 24).name(), "CORE_GridLines()");
    assert_eq!(OHLCCandles::new(1, 2).name(), "OHLC_Candles()");
    assert_eq!(BasicIndicativeLines::new(1, 2, 3).name(), "CORE_BasicIndicativeLines()");
    assert_eq!(NoExtension.name(), "NoExtension()");
    assert_eq!(EMA::new(20, 1, 10, 7).lore_colour(), Some(7));
    assert_eq!(RSI::new(1, 2, 3, 4).lore_colour(), None);
}
