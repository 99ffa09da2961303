//! Verified core of a trade-candle indexer.
//!
//! Raw trades for tradable assets are aggregated into OHLCV candles at six
//! fixed time resolutions, stored in a two-tier store (a retention-bounded
//! cache in front of a durable store) with a fixed fallback policy, and
//! served to streaming clients as a dense, gap-free candle series.
//!
//! Prices are fixed-point integers scaled by [`model::PRICE_SCALE`]; the
//! unverified shell around this crate converts them to floating point at the
//! wire boundary.

pub mod aggregate;
pub mod interpolate;
pub mod mem_tier;
pub mod model;
pub mod pump_handler;
pub mod series;
pub mod session;
pub mod storage;
pub mod tier;
