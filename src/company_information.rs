//! The company overview record and its decoding from a response body.

use vstd::prelude::*;

use crate::json::{
    decimal_member, decimal_spec, int_member, int_spec, parse_json, parsed_json, text_member,
    text_spec, value_fails, DecodeError, Json,
};
use crate::utils::Decimal;

verus! {

/// A snapshot of a company's fundamentals, one field per member of the
/// overview response. Numbers arrive as strings and are coerced.
#[derive(Clone, Debug, PartialEq)]
pub struct CompanyInformation {
    pub symbol: String,
    pub asset_type: String,
    pub name: String,
    pub description: String,
    pub cik: i64,
    pub exchange: String,
    pub currency: String,
    pub country: String,
    pub sector: String,
    pub industry: String,
    pub address: String,
    pub fiscal_year_end: String,
    pub latest_quarter: String,
    pub market_capitalization: i64,
    pub ebitda: i64,
    pub peratio: Decimal,
    pub pegratio: Decimal,
    pub book_value: Decimal,
    pub dividend_per_share: Decimal,
    pub dividend_yield: Decimal,
    pub eps: Decimal,
    pub revenue_per_share_ttm: Decimal,
    pub profit_margin: Decimal,
    pub operating_margin_ttm: Decimal,
    pub return_on_assets_ttm: Decimal,
    pub return_on_equity_ttm: Decimal,
    pub revenue_ttm: i64,
    pub gross_profit_ttm: i64,
    pub diluted_epsttm: Decimal,
    pub quarterly_earnings_growth_yoy: Decimal,
    pub quarterly_revenue_growth_yoy: Decimal,
    pub analyst_target_price: Decimal,
    pub trailing_pe: Decimal,
    pub forward_pe: Decimal,
    pub price_to_sales_ratio_ttm: Decimal,
    pub price_to_book_ratio: Decimal,
    pub evto_revenue: Decimal,
    pub evto_ebitda: Decimal,
    pub beta: Decimal,
    pub n52week_high: Decimal,
    pub n52week_low: Decimal,
    pub n50day_moving_average: Decimal,
    pub n200day_moving_average: Decimal,
    pub shares_outstanding: i64,
    pub dividend_date: String,
    pub ex_dividend_date: String,
}

/// Every member of the overview is present, and decodes to its type.
pub open spec fn overview_complete(m: Seq<(String, Json)>) -> bool {
    &&& text_spec(m, "Symbol"@) is Some
    &&& text_spec(m, "AssetType"@) is Some
    &&& text_spec(m, "Name"@) is Some
    &&& text_spec(m, "Description"@) is Some
    &&& int_spec(m, "CIK"@) is Some
    &&& text_spec(m, "Exchange"@) is Some
    &&& text_spec(m, "Currency"@) is Some
    &&& text_spec(m, "Country"@) is Some
    &&& text_spec(m, "Sector"@) is Some
    &&& text_spec(m, "Industry"@) is Some
    &&& text_spec(m, "Address"@) is Some
    &&& text_spec(m, "FiscalYearEnd"@) is Some
    &&& text_spec(m, "LatestQuarter"@) is Some
    &&& int_spec(m, "MarketCapitalization"@) is Some
    &&& int_spec(m, "EBITDA"@) is Some
    &&& decimal_spec(m, "PERatio"@) is Some
    &&& decimal_spec(m, "PEGRatio"@) is Some
    &&& decimal_spec(m, "BookValue"@) is Some
    &&& decimal_spec(m, "DividendPerShare"@) is Some
    &&& decimal_spec(m, "DividendYield"@) is Some
    &&& decimal_spec(m, "EPS"@) is Some
    &&& decimal_spec(m, "RevenuePerShareTTM"@) is Some
    &&& decimal_spec(m, "ProfitMargin"@) is Some
    &&& decimal_spec(m, "OperatingMarginTTM"@) is Some
    &&& decimal_spec(m, "ReturnOnAssetsTTM"@) is Some
    &&& decimal_spec(m, "ReturnOnEquityTTM"@) is Some
    &&& int_spec(m, "RevenueTTM"@) is Some
    &&& int_spec(m, "GrossProfitTTM"@) is Some
    &&& decimal_spec(m, "DilutedEPSTTM"@) is Some
    &&& decimal_spec(m, "QuarterlyEarningsGrowthYOY"@) is Some
    &&& decimal_spec(m, "QuarterlyRevenueGrowthYOY"@) is Some
    &&& decimal_spec(m, "AnalystTargetPrice"@) is Some
    &&& decimal_spec(m, "TrailingPE"@) is Some
    &&& decimal_spec(m, "ForwardPE"@) is Some
    &&& decimal_spec(m, "PriceToSalesRatioTTM"@) is Some
    &&& decimal_spec(m, "PriceToBookRatio"@) is Some
    &&& decimal_spec(m, "EVToRevenue"@) is Some
    &&& decimal_spec(m, "EVToEBITDA"@) is Some
    &&& decimal_spec(m, "Beta"@) is Some
    &&& decimal_spec(m, "52WeekHigh"@) is Some
    &&& decimal_spec(m, "52WeekLow"@) is Some
    &&& decimal_spec(m, "50DayMovingAverage"@) is Some
    &&& decimal_spec(m, "200DayMovingAverage"@) is Some
    &&& int_spec(m, "SharesOutstanding"@) is Some
    &&& text_spec(m, "DividendDate"@) is Some
    &&& text_spec(m, "ExDividendDate"@) is Some
}

/// The record whose fields are the decoded members of the overview.
pub open spec fn overview_record(m: Seq<(String, Json)>) -> CompanyInformation {
    CompanyInformation {
        symbol: text_spec(m, "Symbol"@)->Some_0,
        asset_type: text_spec(m, "AssetType"@)->Some_0,
        name: text_spec(m, "Name"@)->Some_0,
        description: text_spec(m, "Description"@)->Some_0,
        cik: int_spec(m, "CIK"@)->Some_0,
        exchange: text_spec(m, "Exchange"@)->Some_0,
        currency: text_spec(m, "Currency"@)->Some_0,
        country: text_spec(m, "Country"@)->Some_0,
        sector: text_spec(m, "Sector"@)->Some_0,
        industry: text_spec(m, "Industry"@)->Some_0,
        address: text_spec(m, "Address"@)->Some_0,
        fiscal_year_end: text_spec(m, "FiscalYearEnd"@)->Some_0,
        latest_quarter: text_spec(m, "LatestQuarter"@)->Some_0,
        market_capitalization: int_spec(m, "MarketCapitalization"@)->Some_0,
        ebitda: int_spec(m, "EBITDA"@)->Some_0,
        peratio: decimal_spec(m, "PERatio"@)->Some_0,
        pegratio: decimal_spec(m, "PEGRatio"@)->Some_0,
        book_value: decimal_spec(m, "BookValue"@)->Some_0,
        dividend_per_share: decimal_spec(m, "DividendPerShare"@)->Some_0,
        dividend_yield: decimal_spec(m, "DividendYield"@)->Some_0,
        eps: decimal_spec(m, "EPS"@)->Some_0,
        revenue_per_share_ttm: decimal_spec(m, "RevenuePerShareTTM"@)->Some_0,
        profit_margin: decimal_spec(m, "ProfitMargin"@)->Some_0,
        operating_margin_ttm: decimal_spec(m, "OperatingMarginTTM"@)->Some_0,
        return_on_assets_ttm: decimal_spec(m, "ReturnOnAssetsTTM"@)->Some_0,
        return_on_equity_ttm: decimal_spec(m, "ReturnOnEquityTTM"@)->Some_0,
        revenue_ttm: int_spec(m, "RevenueTTM"@)->Some_0,
        gross_profit_ttm: int_spec(m, "GrossProfitTTM"@)->Some_0,
        diluted_epsttm: decimal_spec(m, "DilutedEPSTTM"@)->Some_0,
        quarterly_earnings_growth_yoy: decimal_spec(m, "QuarterlyEarningsGrowthYOY"@)->Some_0,
        quarterly_revenue_growth_yoy: decimal_spec(m, "QuarterlyRevenueGrowthYOY"@)->Some_0,
        analyst_target_price: decimal_spec(m, "AnalystTargetPrice"@)->Some_0,
        trailing_pe: decimal_spec(m, "TrailingPE"@)->Some_0,
        forward_pe: decimal_spec(m, "ForwardPE"@)->Some_0,
        price_to_sales_ratio_ttm: decimal_spec(m, "PriceToSalesRatioTTM"@)->Some_0,
        price_to_book_ratio: decimal_spec(m, "PriceToBookRatio"@)->Some_0,
        evto_revenue: decimal_spec(m, "EVToRevenue"@)->Some_0,
        evto_ebitda: decimal_spec(m, "EVToEBITDA"@)->Some_0,
        beta: decimal_spec(m, "Beta"@)->Some_0,
        n52week_high: decimal_spec(m, "52WeekHigh"@)->Some_0,
        n52week_low: decimal_spec(m, "52WeekLow"@)->Some_0,
        n50day_moving_average: decimal_spec(m, "50DayMovingAverage"@)->Some_0,
        n200day_moving_average: decimal_spec(m, "200DayMovingAverage"@)->Some_0,
        shares_outstanding: int_spec(m, "SharesOutstanding"@)->Some_0,
        dividend_date: text_spec(m, "DividendDate"@)->Some_0,
        ex_dividend_date: text_spec(m, "ExDividendDate"@)->Some_0,
    }
}

/// The record that a JSON value decodes to: an object with every member of
/// the overview, each a string of its field's type; other members are ignored.
pub open spec fn company_of(j: Json) -> Option<CompanyInformation> {
    match j {
        Json::Object(m) => if overview_complete(m@) {
            Some(overview_record(m@))
        } else {
            None
        },
        _ => None,
    }
}

/// Decodes a company overview from a JSON value.
pub fn decode_company_information(j: &Json) -> (r: Result<CompanyInformation, DecodeError>)
    ensures
        match r {
            Ok(c) => company_of(*j) == Some(c),
            Err(e) => company_of(*j) is None && value_fails(*j, e),
        },
{
    let m = match j {
        Json::Object(m) => m,
        _ => {
            return Err(DecodeError { key: String::new(), cause: None });
        },
    };
    let symbol = text_member(m, "Symbol")?;
    let asset_type = text_member(m, "AssetType")?;
    let name = text_member(m, "Name")?;
    let description = text_member(m, "Description")?;
    let cik = int_member(m, "CIK")?;
    let exchange = text_member(m, "Exchange")?;
    let currency = text_member(m, "Currency")?;
    let country = text_member(m, "Country")?;
    let sector = text_member(m, "Sector")?;
    let industry = text_member(m, "Industry")?;
    let address = text_member(m, "Address")?;
    let fiscal_year_end = text_member(m, "FiscalYearEnd")?;
    let latest_quarter = text_member(m, "LatestQuarter")?;
    let market_capitalization = int_member(m, "MarketCapitalization")?;
    let ebitda = int_member(m, "EBITDA")?;
    let peratio = decimal_member(m, "PERatio")?;
    let pegratio = decimal_member(m, "PEGRatio")?;
    let book_value = decimal_member(m, "BookValue")?;
    let dividend_per_share = decimal_member(m, "DividendPerShare")?;
    let dividend_yield = decimal_member(m, "DividendYield")?;
    let eps = decimal_member(m, "EPS")?;
    let revenue_per_share_ttm = decimal_member(m, "RevenuePerShareTTM")?;
    let profit_margin = decimal_member(m, "ProfitMargin")?;
    let operating_margin_ttm = decimal_member(m, "OperatingMarginTTM")?;
    let return_on_assets_ttm = decimal_member(m, "ReturnOnAssetsTTM")?;
    let return_on_equity_ttm = decimal_member(m, "ReturnOnEquityTTM")?;
    let revenue_ttm = int_member(m, "RevenueTTM")?;
    let gross_profit_ttm = int_member(m, "GrossProfitTTM")?;
    let diluted_epsttm = decimal_member(m, "DilutedEPSTTM")?;
    let quarterly_earnings_growth_yoy = decimal_member(m, "QuarterlyEarningsGrowthYOY")?;
    let quarterly_revenue_growth_yoy = decimal_member(m, "QuarterlyRevenueGrowthYOY")?;
    let analyst_target_price = decimal_member(m, "AnalystTargetPrice")?;
    let trailing_pe = decimal_member(m, "TrailingPE")?;
    let forward_pe = decimal_member(m, "ForwardPE")?;
    let price_to_sales_ratio_ttm = decimal_member(m, "PriceToSalesRatioTTM")?;
    let price_to_book_ratio = decimal_member(m, "PriceToBookRatio")?;
    let evto_revenue = decimal_member(m, "EVToRevenue")?;
    let evto_ebitda = decimal_member(m, "EVToEBITDA")?;
    let beta = decimal_member(m, "Beta")?;
    let n52week_high = decimal_member(m, "52WeekHigh")?;
    let n52week_low = decimal_member(m, "52WeekLow")?;
    let n50day_moving_average = decimal_member(m, "50DayMovingAverage")?;
    let n200day_moving_average = decimal_member(m, "200DayMovingAverage")?;
    let shares_outstanding = int_member(m, "SharesOutstanding")?;
    let dividend_date = text_member(m, "DividendDate")?;
    let ex_dividend_date = text_member(m, "ExDividendDate")?;
    Ok(CompanyInformation {
        symbol,
        asset_type,
        name,
        description,
        cik,
        exchange,
        currency,
        country,
        sector,
        industry,
        address,
        fiscal_year_end,
        latest_quarter,
        market_capitalization,
        ebitda,
        peratio,
        pegratio,
        book_value,
        dividend_per_share,
        dividend_yield,
        eps,
        revenue_per_share_ttm,
        profit_margin,
        operating_margin_ttm,
        return_on_assets_ttm,
        return_on_equity_ttm,
        revenue_ttm,
        gross_profit_ttm,
        diluted_epsttm,
        quarterly_earnings_growth_yoy,
        quarterly_revenue_growth_yoy,
        analyst_target_price,
        trailing_pe,
        forward_pe,
        price_to_sales_ratio_ttm,
        price_to_book_ratio,
        evto_revenue,
        evto_ebitda,
        beta,
        n52week_high,
        n52week_low,
        n50day_moving_average,
        n200day_moving_average,
        shares_outstanding,
        dividend_date,
        ex_dividend_date,
    })
}

/// Decodes a company overview from the text of a response body: text that is
/// not JSON fails with an error that names no member.
pub fn company_information_from_text(text: &str) -> (r: Result<CompanyInformation, DecodeError>)
    ensures
        match parsed_json(text@) {
            None => r matches Err(e) && e.key@.len() == 0 && e.cause is None,
            Some(j) => match r {
                Ok(c) => company_of(j) == Some(c),
                Err(e) => company_of(j) is None && value_fails(j, e),
            },
        },
{
    match parse_json(text) {
        None => Err(DecodeError { key: String::new(), cause: None }),
        Some(j) => decode_company_information(&j),
    }
}

/// An overview without a "Symbol" member does not decode.
pub proof fn law_symbol_required(j: Json)
    requires
        j matches Json::Object(m) && crate::json::first_with(m@, "Symbol"@) is None,
    ensures
        company_of(j) is None,
{
}

/// Decoding the same body twice gives equal records.
pub proof fn law_company_repeatable(text: Seq<char>, a: CompanyInformation, b: CompanyInformation)
    requires
        parsed_json(text) matches Some(j) && company_of(j) == Some(a),
        parsed_json(text) matches Some(j) && company_of(j) == Some(b),
    ensures
        a == b,
{
}

} // verus!
