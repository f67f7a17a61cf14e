use alpha_vantage::company_information::{company_information_from_text, CompanyInformation};
use alpha_vantage::intraday::{time_series_from_text, TimeSeries};
use alpha_vantage::utils::Decimal;

fn company_json() -> &'static str {
    r#"
    {
    "Symbol": "IBM",
    "AssetType": "Common Stock",
    "Name": "International Business Machines",
    "Description": "International Business Machines Corporation (IBM) is an American multinational technology company headquartered in Armonk, New York, with operations in over 170 countries. The company began in 1911, founded in Endicott, New York, as the Computing-Tabulating-Recording Company (CTR) and was renamed International Business Machines in 1924. IBM is incorporated in New York. IBM produces and sells computer hardware, middleware and software, and provides hosting and consulting services in areas ranging from mainframe computers to nanotechnology. IBM is also a major research organization, holding the record for most annual U.S. patents generated by a business (as of 2020) for 28 consecutive years. Inventions by IBM include the automated teller machine (ATM), the floppy disk, the hard disk drive, the magnetic stripe card, the relational database, the SQL programming language, the UPC barcode, and dynamic random-access memory (DRAM). The IBM mainframe, exemplified by the System/360, was the dominant computing platform during the 1960s and 1970s.",
    "CIK": "51143",
    "Exchange": "NYSE",
    "Currency": "USD",
    "Country": "USA",
    "Sector": "TECHNOLOGY",
    "Industry": "COMPUTER & OFFICE EQUIPMENT",
    "Address": "1 NEW ORCHARD ROAD, ARMONK, NY, US",
    "FiscalYearEnd": "December",
    "LatestQuarter": "2022-09-30",
    "MarketCapitalization": "123145404000",
    "EBITDA": "12010000000",
    "PERatio": "22.56",
    "PEGRatio": "1.182",
    "BookValue": "22.2",
    "DividendPerShare": "6.59",
    "DividendYield": "0.0477",
    "EPS": "6.09",
    "RevenuePerShareTTM": "67.2",
    "ProfitMargin": "0.0209",
    "OperatingMarginTTM": "0.115",
    "ReturnOnAssetsTTM": "0.0322",
    "ReturnOnEquityTTM": "0.0648",
    "RevenueTTM": "60535001000",
    "GrossProfitTTM": "31486000000",
    "DilutedEPSTTM": "6.09",
    "QuarterlyEarningsGrowthYOY": "0.041",
    "QuarterlyRevenueGrowthYOY": "0.065",
    "AnalystTargetPrice": "139.96",
    "TrailingPE": "22.56",
    "ForwardPE": "14.39",
    "PriceToSalesRatioTTM": "2.034",
    "PriceToBookRatio": "6.23",
    "EVToRevenue": "2.777",
    "EVToEBITDA": "24.13",
    "Beta": "0.877",
    "52WeekHigh": "141.25",
    "52WeekLow": "109.15",
    "50DayMovingAverage": "127.42",
    "200DayMovingAverage": "131.59",
    "SharesOutstanding": "896320000",
    "DividendDate": "2022-12-10",
    "ExDividendDate": "2022-11-09"
        }"#
}

fn series_5min_json() -> &'static str {
    r#"
    {
        "Meta Data": {
            "1. Information": "Intraday (5min) open, high, low, close prices and volume",
            "2. Symbol": "IBM",
            "3. Last Refreshed": "2022-11-15 16:15:00",
            "4. Interval": "5min",
            "5. Output Size": "Compact",
            "6. Time Zone": "US/Eastern"
        },
        "Time Series (5min)": {
            "2022-11-15 16:15:00": {
                "1. open": "144.3400",
                "2. high": "144.3400",
                "3. low": "144.3400",
                "4. close": "144.3400",
                "5. volume": "4464"
            },
            "2022-11-15 16:05:00": {
                "1. open": "144.3400",
                "2. high": "144.3400",
                "3. low": "144.3400",
                "4. close": "144.3400",
                "5. volume": "159775"
            },
            "2022-11-15 16:00:00": {
                "1. open": "144.0000",
                "2. high": "144.3600",
                "3. low": "144.0000",
                "4. close": "144.3300",
                "5. volume": "188048"
            }
        }
    }"#
}

fn series_60min_json() -> &'static str {
    r#"
    {
        "Meta Data": {
            "1. Information": "Intraday (60min) open, high, low, close prices and volume",
            "2. Symbol": "IBM",
            "3. Last Refreshed": "2022-11-15 16:15:00",
            "4. Interval": "60min",
            "5. Output Size": "Compact",
            "6. Time Zone": "US/Eastern"
        },
        "Time Series (60min)": {
            "2022-11-15 16:15:00": {
                "1. open": "144.3400",
                "2. high": "144.3400",
                "3. low": "144.3400",
                "4. close": "144.3400",
                "5. volume": "4464"
            },
            "2022-11-15 15:15:00": {
                "1. open": "144.3400",
                "2. high": "144.3400",
                "3. low": "144.3400",
                "4. close": "144.3400",
                "5. volume": "159775"
            },
            "2022-11-15 14:15:00": {
                "1. open": "144.0000",
                "2. high": "144.3600",
                "3. low": "144.0000",
                "4. close": "144.3300",
                "5. volume": "188048"
            }
        }
    }"#
}

fn as_f32(d: Decimal) -> f32 {
    d.mantissa as f32 / 10f32.powi(d.scale as i32)
}

#[test]
fn it_serializes_company_information() {
    let res = company_information_from_text(company_json());
    if res.is_err() {
        res.as_ref().unwrap();
    }

    let u_res: CompanyInformation = res.unwrap();

    assert_eq!(
        u_res.address,
        String::from("1 NEW ORCHARD ROAD, ARMONK, NY, US")
    );
    assert_eq!(u_res.market_capitalization, 123145404000);
    assert_eq!(as_f32(u_res.peratio), 22.56);
}

#[test]
fn it_serializes_timeseries() {
    let res = time_series_from_text(series_5min_json());
    if res.is_err() {
        res.as_ref().unwrap();
    }

    let u_res: TimeSeries = res.unwrap();

    assert_eq!(u_res.item("Time Series (5min)", "2022-11-15 16:15:00").unwrap().volume, 4464);

    let diff = as_f32(u_res.item("Time Series (5min)", "2022-11-15 16:15:00").unwrap().close) - 144.3400;
    assert!(diff.abs() < f32::EPSILON);

    let res = time_series_from_text(series_60min_json());
    if res.is_err() {
        res.as_ref().unwrap();
    }

    let u_res: TimeSeries = res.unwrap();

    assert_eq!(u_res.item("Time Series (60min)", "2022-11-15 16:15:00").unwrap().volume, 4464);

    let diff = as_f32(u_res.item("Time Series (60min)", "2022-11-15 16:15:00").unwrap().close) - 144.3400;
    assert!(diff.abs() < f32::EPSILON);
}

#[test]
fn overview_exact_values() {
    let c = company_information_from_text(company_json()).unwrap();
    assert_eq!(c.cik, 51143);
    assert_eq!(c.symbol, "IBM");
    assert_eq!(c.peratio, Decimal { mantissa: 2256, scale: 2 });
    assert_eq!(c.dividend_yield, Decimal { mantissa: 477, scale: 4 });
    assert_eq!(c.shares_outstanding, 896320000);
    assert_eq!(c.n52week_high, Decimal { mantissa: 14125, scale: 2 });
    assert_eq!(c.ex_dividend_date, "2022-11-09");
}

#[test]
fn overview_without_symbol_fails() {
    let text = company_json().replace("\"Symbol\": \"IBM\",", "");
    assert!(!text.contains("\"Symbol\""));
    let e = company_information_from_text(&text).unwrap_err();
    assert_eq!(e.key, "Symbol");
    assert!(e.cause.is_none());
}

#[test]
fn overview_bad_number_names_field() {
    let text = company_json().replace("\"CIK\": \"51143\"", "\"CIK\": \"5x143\"");
    let e = company_information_from_text(&text).unwrap_err();
    assert_eq!(e.key, "CIK");
    assert_eq!(e.cause.unwrap().text, "5x143");
}

#[test]
fn overview_number_not_a_string_fails() {
    let text = company_json().replace("\"CIK\": \"51143\"", "\"CIK\": 51143");
    let e = company_information_from_text(&text).unwrap_err();
    assert_eq!(e.key, "CIK");
    assert!(e.cause.is_none());
}

#[test]
fn overview_decodes_the_same_twice() {
    let a = company_information_from_text(company_json()).unwrap();
    let b = company_information_from_text(company_json()).unwrap();
    assert_eq!(a, b);
}

#[test]
fn not_json_is_an_error() {
    let e = company_information_from_text("not json").unwrap_err();
    assert_eq!(e.key, "");
    assert!(time_series_from_text("{").is_err());
    assert!(company_information_from_text("{}").is_err());
}

#[test]
fn series_rows_and_labels() {
    let s = time_series_from_text(series_5min_json()).unwrap();
    assert_eq!(s.series_count(), 1);
    assert_eq!(s.meta_data.interval, "5min");
    assert_eq!(s.meta_data.time_zone, "US/Eastern");
    let row = s.item("Time Series (5min)", "2022-11-15 16:00:00").unwrap();
    assert_eq!(row.open, Decimal { mantissa: 1440000, scale: 4 });
    assert_eq!(row.high, Decimal { mantissa: 1443600, scale: 4 });
    assert_eq!(row.volume, 188048);
    assert!(s.item("Time Series (60min)", "2022-11-15 16:00:00").is_none());
    assert!(s.item("Time Series (5min)", "2022-11-15 09:00:00").is_none());
}

#[test]
fn series_label_is_not_fixed() {
    let a = time_series_from_text(series_5min_json()).unwrap();
    let text = series_5min_json().replace("Time Series (5min)", "Weekly Prices");
    let b = time_series_from_text(&text).unwrap();
    assert_eq!(
        a.item("Time Series (5min)", "2022-11-15 16:05:00"),
        b.item("Weekly Prices", "2022-11-15 16:05:00")
    );
    assert_eq!(b.time_series[0].1, a.time_series[0].1);
}

#[test]
fn empty_series_is_an_empty_table() {
    let text = r#"{"Meta Data": {"1. Information": "i", "2. Symbol": "IBM",
        "3. Last Refreshed": "t", "4. Interval": "5min", "5. Output Size": "Compact",
        "6. Time Zone": "US/Eastern"}, "Time Series (5min)": {}}"#;
    let s = time_series_from_text(text).unwrap();
    assert_eq!(s.series_count(), 1);
    assert_eq!(s.time_series[0].0, "Time Series (5min)");
    assert!(s.time_series[0].1.is_empty());
}

#[test]
fn series_without_meta_data_fails() {
    let e = time_series_from_text(r#"{"Time Series (5min)": {}}"#).unwrap_err();
    assert_eq!(e.key, "Meta Data");
}

#[test]
fn series_decodes_the_same_twice() {
    let a = time_series_from_text(series_5min_json()).unwrap();
    let b = time_series_from_text(series_5min_json()).unwrap();
    assert_eq!(a, b);
}

#[test]
fn series_keys_are_unique() {
    let s = time_series_from_text(series_5min_json()).unwrap();
    let rows = &s.time_series[0].1;
    assert_eq!(rows.len(), 3);
    for a in 0..rows.len() {
        for b in (a + 1)..rows.len() {
            assert_ne!(rows[a].0, rows[b].0);
        }
    }
}

#[test]
fn renamed_label_keeps_rows() {
    let a = time_series_from_text(series_5min_json()).unwrap();
    let text = series_5min_json().replace("Time Series (5min)", "Time Series (60min)");
    let b = time_series_from_text(&text).unwrap();
    assert_eq!(b.meta_data, a.meta_data);
    assert_eq!(b.time_series.len(), 1);
    assert_eq!(b.time_series[0].0, "Time Series (60min)");
    assert_eq!(b.time_series[0].1, a.time_series[0].1);
}
