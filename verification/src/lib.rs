//! Verified core of a market-data ingestion service: exchange order-book
//! normalisation, local level books, sequence tracking and frame decoding.

pub mod levels;
pub mod slots;
pub mod indexer;
pub mod models;
pub mod worker;
pub mod binance;
pub mod decimal;
pub mod text;
pub mod error;
pub mod bybit;
pub mod okx;
pub mod sbe;
pub mod laws;
pub mod dbook;
pub mod l2book;
pub mod polymarket;
pub mod okx_book;
pub mod connection;
pub mod telemetry;
pub mod config;
pub mod batch;
pub mod feed_laws;
