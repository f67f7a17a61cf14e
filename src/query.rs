//! The request targets of the two endpoints.

use vstd::prelude::*;
use vstd::string::StringExecFns;

verus! {

pub open spec fn overview_target(symbol: Seq<char>, api_key: Seq<char>) -> Seq<char> {
    "https://www.alphavantage.co/query?function=OVERVIEW&symbol="@ + symbol + "&apikey="@
        + api_key
}

pub open spec fn intraday_target(symbol: Seq<char>, interval: Seq<char>, api_key: Seq<char>) -> Seq<
    char,
> {
    "https://www.alphavantage.co/query?function=TIME_SERIES_INTRADAY&symbol="@ + symbol
        + "&interval="@ + interval + "&apikey="@ + api_key
}

/// The address of a company overview request.
pub fn overview_url(symbol: &str, api_key: &str) -> (r: String)
    ensures
        r@ == overview_target(symbol@, api_key@),
{
    let mut r = String::from_str("https://www.alphavantage.co/query?function=OVERVIEW&symbol=");
    r.append(symbol);
    r.append("&apikey=");
    r.append(api_key);
    r
}

/// The address of an intraday time-series request.
pub fn intraday_url(symbol: &str, interval: &str, api_key: &str) -> (r: String)
    ensures
        r@ == intraday_target(symbol@, interval@, api_key@),
{
    let mut r = String::from_str(
        "https://www.alphavantage.co/query?function=TIME_SERIES_INTRADAY&symbol=",
    );
    r.append(symbol);
    r.append("&interval=");
    r.append(interval);
    r.append("&apikey=");
    r.append(api_key);
    r
}

} // verus!
