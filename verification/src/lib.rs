//! Candlestick (OHLCV) aggregation over a stream of trades.
//!
//! Trades are bucketed into fixed-width time windows, one rolling series per
//! symbol and interval. Verus proves the contracts of the functions; the few
//! that call into `dashmap`, `tokio`, `chrono`, `uuid` and `rand` state what
//! those crates document and are believed as they stand.

pub mod book;
pub mod data_generator;
pub mod interval;
pub mod kline;
pub mod kline_handler;
pub mod kline_service;
pub mod live_feed;
pub mod series;
mod shared_map;
mod sources;
pub mod stream_service;
pub mod transaction;
