//! Client-side data mapping for a stock market data service: numeric coercion
//! of string-encoded values, and decoding of company overview and intraday
//! time-series responses into typed records.

pub mod json;
pub mod utils;
pub mod company_information;
pub mod intraday;
pub mod query;
