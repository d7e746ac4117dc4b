use ohlc::utils::duration_string;
use ohlc::utils::i64_to_string;
use ohlc::utils::u64_to_string;

#[test]
fn utils_duration_test() {
    assert_eq!(duration_string(1), "Now");
    assert_eq!(duration_string(10), "10s");
    assert_eq!(duration_string(60), "1m");
    assert_eq!(duration_string(61), "1m1s");
    assert_eq!(duration_string(3600), "1h");
    assert_eq!(duration_string(3661), "1h1m1s");
    assert_eq!(duration_string(86400), "1d");
    assert_eq!(duration_string(86400 + 3661), "1d1h1m1s");
    assert_eq!(duration_string(604800), "1w");
    assert_eq!(duration_string(604800 + 86400 + 3661), "1w1d1h1m1s");
    assert_eq!(duration_string(2592000), "1m");
    assert_eq!(duration_string(2592000 + 604800 + 86400 + 3661), "1m1w1d1h1m1s");
    assert_eq!(duration_string(365 * 86400), "1y");
    assert_eq!(duration_string(365 * 86400 + 2592000 + 604800 + 86400 + 3661), "1y1m1w1d1h1m1s");
}

#[test]
fn tests_duration_test() {
    assert_eq!(duration_string(1), "Now");
    assert_eq!(duration_string(10), "10s");
    assert_eq!(duration_string(60), "1m");
    assert_eq!(duration_string(61), "1m1s");
    assert_eq!(duration_string(3600), "1h");
    assert_eq!(duration_string(3661), "1h1m1s");
    assert_eq!(duration_string(86400), "1d");
    assert_eq!(duration_string(86400 + 3661), "1d1h1m1s");
    assert_eq!(duration_string(604800), "1w");
    assert_eq!(duration_string(604800 + 86400 + 3661), "1w1d1h1m1s");
    assert_eq!(duration_string(2592000), "1m");
    assert_eq!(duration_string(2592000 + 604800 + 86400 + 3661), "1m1w1d1h1m1s");
    assert_eq!(duration_string(365 * 86400), "1y");
    assert_eq!(duration_string(365 * 86400 + 2592000 + 604800 + 86400 + 3661), "1y1m1w1d1h1m1s");
}

#[test]
fn duration_boundaries() {
    assert_eq!(duration_string(0), "Now");
    assert_eq!(duration_string(9), "Now");
    assert_eq!(duration_string(59), "59s");
}

#[test]
fn decimal_strings() {
    assert_eq!(u64_to_string(0), "0");
    assert_eq!(u64_to_string(7), "7");
    assert_eq!(u64_to_string(10), "10");
    assert_eq!(u64_to_string(1309), "1309");
    assert_eq!(u64_to_string(18_446_744_073_709_551_615), "18446744073709551615");
    assert_eq!(i64_to_string(0), "0");
    assert_eq!(i64_to_string(42), "42");
    assert_eq!(i64_to_string(-42), "-42");
    assert_eq!(i64_to_string(-1_000_000_000_000), "-1000000000000");
}
