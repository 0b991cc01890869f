//! Turtle-trading decision logic for a SOL-USDT quant trader: breakout
//! detection over candle windows, signal generation, parameter checks, the
//! strategy registry, and the decision parts of data collection.
//!
//! Prices, volumes and ratios are carried as the IEEE-754 bit pattern of the
//! double that stands for them (what `f64::to_bits` gives); `ieee` orders
//! such patterns exactly as the doubles compare.
use vstd::prelude::*;

pub mod error;
pub mod feed;
pub mod ieee;
pub mod manager;
pub mod strategy;
pub mod text;
pub mod types;

verus! {

} // verus!
