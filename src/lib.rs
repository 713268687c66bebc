//! Pricing and execution core of a lead/lag taker and a new-coin maker.
//!
//! Prices, ratios, sizes and positions are fixed-point decimals: an integer
//! count of `1 / SCALE` (see `fixed`). Floating-point work (the exponential
//! and logarithm of the new-coin model) is done by the caller and handed in.

pub mod basic_maker;
pub mod config;
pub mod ema;
pub mod fixed;
pub mod linear_taker;
pub mod new_coin;
pub mod new_coin_strategy;
pub mod offset_cache;
pub mod offset_taker;
pub mod oms;
pub mod period;
pub mod persistence;
pub mod theo_price;
pub mod reporter;
pub mod strategy;
pub mod tema;
pub mod ticker;
pub mod ticker_cache;
pub mod trade_rule;

