use ohlc::utils::aggregate;
use ohlc::utils::calculate_ohlc_of_set;
use ohlc::validate;
use ohlc::Candle;
use ohlc::OHLCRenderOptions;
use ohlc::PrecondError;
use ohlc::RenderError;
use ohlc::ValidationError;
use ohlc::OHLC;

fn bar(o: i64, h: i64, l: i64, c: i64) -> OHLC {
    OHLC { o, h, l, c, bv: None, v: 0 }
}

/// A candle whose open tops its own high is rejected with the matching
/// "high" error, while a well-formed candle passes.
#[test]
fn open_above_high_rejected() {
    let bad = vec![bar(5, 4, 0, 2)];
    let err = validate(&bad).unwrap_err();
    assert_eq!(err, ValidationError::OpenAboveHigh);
    assert!(err.message().contains("high"));

    let good = vec![bar(1, 4, 0, 2)];
    assert!(validate(&good).is_ok());
}

#[test]
fn every_validation_variant() {
    assert_eq!(validate(&vec![bar(5, 4, 0, 2)]).unwrap_err(), ValidationError::OpenAboveHigh);
    assert_eq!(validate(&vec![bar(1, 4, 0, 5)]).unwrap_err(), ValidationError::CloseAboveHigh);
    assert_eq!(validate(&vec![bar(-7, -5, -4, -6)]).unwrap_err(), ValidationError::LowAboveHigh);
    assert_eq!(validate(&vec![bar(-1, 4, 0, 2)]).unwrap_err(), ValidationError::OpenBelowLow);
    assert_eq!(validate(&vec![bar(1, 4, 0, -2)]).unwrap_err(), ValidationError::CloseBelowLow);
}

#[test]
fn first_violation_wins() {
    let data = vec![bar(1, 4, 0, 2), bar(9, 4, 0, 2), bar(1, 4, 0, 9)];
    assert_eq!(validate(&data).unwrap_err(), ValidationError::OpenAboveHigh);
}

#[test]
fn validation_error_aborts_render() {
    let options = OHLCRenderOptions::new();
    let data = vec![bar(5, 4, 0, 2)];
    assert_eq!(
        options.render_to_buffer(&data).unwrap_err(),
        RenderError::Validation(ValidationError::OpenAboveHigh)
    );
}

#[test]
fn empty_series_is_rejected() {
    let options = OHLCRenderOptions::new();
    let data: Vec<OHLC> = Vec::new();
    assert_eq!(
        options.render_to_buffer(&data).unwrap_err(),
        RenderError::Precondition(PrecondError::EmptyData)
    );
}

#[test]
fn out_of_range_price_is_rejected() {
    let options = OHLCRenderOptions::new();
    let data = vec![bar(1, 2_000_000_000_000, 0, 2)];
    assert_eq!(
        options.render_to_buffer(&data).unwrap_err(),
        RenderError::Precondition(PrecondError::ValueOutOfRange)
    );
}

#[test]
fn flat_series_has_no_price_window() {
    let options = OHLCRenderOptions::new();
    let data = vec![bar(5, 5, 5, 5), bar(5, 5, 5, 5)];
    assert_eq!(
        options.render_to_buffer(&data).unwrap_err(),
        RenderError::Precondition(PrecondError::InvertedPriceRange)
    );
}

#[test]
fn aggregate_summarises_the_series() {
    let data = vec![bar(3, 8, 2, 5), bar(5, 11, 4, 7), bar(7, 9, 1, 6)];
    let agg = aggregate(&data);
    assert_eq!(agg.o, 3);
    assert_eq!(agg.h, 11);
    assert_eq!(agg.l, 1);
    assert_eq!(agg.c, 6);
    assert_eq!(agg.open(), 3);
    assert_eq!(agg.high(), 11);

    let summary = calculate_ohlc_of_set(&data);
    assert_eq!(summary.o, 3);
    assert_eq!(summary.h, 11);
    assert_eq!(summary.l, 1);
    assert_eq!(summary.c, 6);
}

#[test]
fn aggregate_of_empty_series_is_zeroed() {
    let data: Vec<OHLC> = Vec::new();
    let agg = aggregate(&data);
    assert_eq!(agg.o, 0);
    assert_eq!(agg.h, 0);
    assert_eq!(agg.l, 0);
    assert_eq!(agg.c, 0);
    assert_eq!(agg.v, 0);
}

#[test]
fn candle_accessors() {
    let c = OHLC { o: 1, h: 4, l: 0, c: 2, bv: Some(30), v: 100 };
    assert_eq!(c.open(), 1);
    assert_eq!(c.high(), 4);
    assert_eq!(c.low(), 0);
    assert_eq!(c.close(), 2);
    assert_eq!(c.buy_volume(), Some(30));
    assert_eq!(c.total_volume(), 100);
    assert_eq!(c.sell_volume(), Some(70));
    assert_eq!(c.range(), 4);
    let z = OHLC::new();
    assert_eq!(z.sell_volume(), None);
}
