use alpha_vantage::query::{intraday_url, overview_url};
use alpha_vantage::utils::{de_from_str_to_float, de_from_str_to_int, Decimal, NumericTarget};

fn dec(mantissa: i64, scale: u32) -> Decimal {
    Decimal { mantissa, scale }
}

#[test]
fn integers_parse() {
    assert_eq!(de_from_str_to_int("51143").unwrap(), 51143);
    assert_eq!(de_from_str_to_int("-42").unwrap(), -42);
    assert_eq!(de_from_str_to_int("+7").unwrap(), 7);
    assert_eq!(de_from_str_to_int("0").unwrap(), 0);
    assert_eq!(de_from_str_to_int("9223372036854775807").unwrap(), i64::MAX);
    assert_eq!(de_from_str_to_int("-9223372036854775808").unwrap(), i64::MIN);
}

#[test]
fn integers_reject() {
    for s in ["", "-", "+", "12a", "1.5", " 1", "9223372036854775808", "-9223372036854775809", "None"] {
        let e = de_from_str_to_int(s).unwrap_err();
        assert_eq!(e.text, s);
        assert_eq!(e.target, NumericTarget::Integer);
    }
}

#[test]
fn decimals_parse() {
    assert_eq!(de_from_str_to_float("144.3400").unwrap(), dec(1443400, 4));
    assert_eq!(de_from_str_to_float("22.56").unwrap(), dec(2256, 2));
    assert_eq!(de_from_str_to_float("-0.5").unwrap(), dec(-5, 1));
    assert_eq!(de_from_str_to_float("7").unwrap(), dec(7, 0));
    assert_eq!(de_from_str_to_float("5.").unwrap(), dec(5, 0));
    assert_eq!(de_from_str_to_float(".25").unwrap(), dec(25, 2));
    assert_eq!(de_from_str_to_float("+1.0").unwrap(), dec(10, 1));
}

#[test]
fn decimals_with_exponent_parse() {
    assert_eq!(de_from_str_to_float("1e5").unwrap(), dec(100000, 0));
    assert_eq!(de_from_str_to_float("1.5E-3").unwrap(), dec(15, 4));
    assert_eq!(de_from_str_to_float("2.5e1").unwrap(), dec(25, 0));
    assert_eq!(de_from_str_to_float("1.25e1").unwrap(), dec(125, 1));
    assert_eq!(de_from_str_to_float("-1.25e+2").unwrap(), dec(-125, 0));
    assert_eq!(de_from_str_to_float("7e0").unwrap(), dec(7, 0));
    assert_eq!(de_from_str_to_float("3.e2").unwrap(), dec(300, 0));
    assert_eq!(de_from_str_to_float("9.2e18").unwrap(), dec(9200000000000000000, 0));
    assert_eq!(
        de_from_str_to_float("0e999999999999999999999999999999999999").unwrap(),
        dec(0, 0)
    );
    assert_eq!(de_from_str_to_float("1e-4294967295").unwrap(), dec(1, u32::MAX));
}

#[test]
fn decimals_round_trip() {
    for (s, v) in [
        ("144.34", 144.34f64), ("0.0477", 0.0477), ("-3.5", -3.5), ("123145404000", 123145404000.0),
        ("1.5E-3", 0.0015), ("1e5", 100000.0),
    ] {
        let d = de_from_str_to_float(s).unwrap();
        let back = d.mantissa as f64 / 10f64.powi(d.scale as i32);
        assert!((back - v).abs() <= v.abs() * 1e-12);
        assert!((back - s.parse::<f64>().unwrap()).abs() <= v.abs() * 1e-12);
    }
}

#[test]
fn decimals_reject() {
    for s in [
        "", ".", "-", "1.2.3", "abc", "NaN", "inf", "12,5", "None", "99999999999999999999",
        "1e", "e5", ".e5", "1e+", "1e5.0", "1e5e2", "1e30", "9.3e18", "1e-4294967296",
    ] {
        let e = de_from_str_to_float(s).unwrap_err();
        assert_eq!(e.text, s);
        assert_eq!(e.target, NumericTarget::Decimal);
    }
}

#[test]
fn request_targets() {
    assert_eq!(
        overview_url("IBM", "demo"),
        "https://www.alphavantage.co/query?function=OVERVIEW&symbol=IBM&apikey=demo"
    );
    assert_eq!(
        intraday_url("IBM", "5min", "demo"),
        "https://www.alphavantage.co/query?function=TIME_SERIES_INTRADAY&symbol=IBM&interval=5min&apikey=demo"
    );
}
